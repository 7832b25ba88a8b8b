//! The channel by which orders reach the decode loop.

use crossbeam_channel::{Receiver, Sender};
use vstd::prelude::*;

verus! {

/// Orders to the decode loop.
#[derive(Debug, Clone, Copy, PartialEq, Eq, Structural)]
pub enum DecoderCommand {
    Reset,
    Stop,
}

/// The sending half of a `crossbeam-channel` channel.
#[verifier::external_type_specification]
#[verifier::external_body]
#[verifier::reject_recursive_types(T)]
pub struct ExSender<T>(crossbeam_channel::Sender<T>);

/// The receiving half of a `crossbeam-channel` channel.
#[verifier::external_type_specification]
#[verifier::external_body]
#[verifier::reject_recursive_types(T)]
pub struct ExReceiver<T>(crossbeam_channel::Receiver<T>);

/// The commands that `Sender::send` was given on this handle, oldest first.
pub uninterp spec fn commands_handed_over(commands: Sender<DecoderCommand>) -> Seq<DecoderCommand>;

/// The end of a command channel that commands are sent on. None is made but by
/// [`command_channel`], so the channel is always an unbounded one, on which sending never blocks.
pub struct CommandSender {
    sender: Sender<DecoderCommand>,
}

/// The commands that were sent, oldest first.
impl View for CommandSender {
    type V = Seq<DecoderCommand>;

    closed spec fn view(&self) -> Seq<DecoderCommand> {
        commands_handed_over(self.sender)
    }
}

/// `crossbeam_channel::unbounded`: a channel that takes any number of commands. Nothing was sent
/// on it yet.
#[verifier::external_body]
fn unbounded_commands() -> (ends: (Sender<DecoderCommand>, Receiver<DecoderCommand>))
    ensures
        commands_handed_over(ends.0) == Seq::<DecoderCommand>::empty(),
{
    crossbeam_channel::unbounded()
}

/// `Sender::send` on an unbounded channel, where it does not block. Once the decode loop is gone
/// the command is lost, which nobody needs to know.
#[verifier::external_body]
fn hand_over(commands: &mut CommandSender, command: DecoderCommand)
    ensures
        commands_handed_over(final(commands).sender) == commands_handed_over(
            old(commands).sender,
        ).push(command),
{
    let _ = commands.sender.send(command);
}

/// A channel for commands.
pub fn command_channel() -> (ends: (CommandSender, Receiver<DecoderCommand>))
    ensures
        ends.0@ == Seq::<DecoderCommand>::empty(),
{
    let (sender, receiver) = unbounded_commands();
    (CommandSender { sender }, receiver)
}

impl CommandSender {
    /// Sends a command.
    pub fn send(&mut self, command: DecoderCommand)
        ensures
            final(self)@ == old(self)@.push(command),
    {
        hand_over(self, command);
    }
}

} // verus!
