//! RTP packets as the receivers read them.

use vstd::prelude::*;

verus! {

/// One RTP header extension element.
#[derive(Debug, Clone)]
pub struct RtpExtension {
    pub id: u8,
    pub payload: Vec<u8>,
}

/// The fields of an RTP packet that the audio and video receivers look at.
#[derive(Debug, Clone)]
pub struct RtpPacket {
    pub payload_type: u8,
    pub sequence_number: u16,
    pub timestamp: u32,
    pub marker: bool,
    pub extensions: Vec<RtpExtension>,
    pub payload: Vec<u8>,
}

/// What a header extension holds.
pub ghost struct ExtensionView {
    pub id: u8,
    pub payload: Seq<u8>,
}

/// What an RTP packet holds.
pub ghost struct PacketView {
    pub payload_type: u8,
    pub sequence_number: u16,
    pub timestamp: u32,
    pub marker: bool,
    pub extensions: Seq<ExtensionView>,
    pub payload: Seq<u8>,
}

impl View for RtpExtension {
    type V = ExtensionView;

    open spec fn view(&self) -> ExtensionView {
        ExtensionView { id: self.id, payload: self.payload@ }
    }
}

impl View for RtpPacket {
    type V = PacketView;

    open spec fn view(&self) -> PacketView {
        PacketView {
            payload_type: self.payload_type,
            sequence_number: self.sequence_number,
            timestamp: self.timestamp,
            marker: self.marker,
            extensions: Seq::new(self.extensions@.len(), |i: int| self.extensions@[i]@),
            payload: self.payload@,
        }
    }
}

/// The distance from `from` forward to `to` on the 16-bit sequence circle.
pub open spec fn sequence_distance(from: u16, to: u16) -> int {
    (to - from) % 0x1_0000
}

/// The sequence number `offset` places after `from` (before it, when negative).
pub open spec fn sequence_offset(from: u16, offset: int) -> u16 {
    ((from + offset) % 0x1_0000) as u16
}

/// The distance from `from` forward to `to` on the 32-bit timestamp circle.
pub open spec fn timestamp_distance(from: u32, to: u32) -> int {
    (to - from) % 0x1_0000_0000
}

/// Whether `candidate` lies ahead of `reference`, less than half the timestamp circle away.
pub open spec fn is_newer(candidate: u32, reference: u32) -> bool {
    0 < timestamp_distance(reference, candidate) < 0x8000_0000
}

/// Whether `candidate` lies ahead of `reference` on the wrapping RTP clock.
pub fn timestamp_is_newer(candidate: u32, reference: u32) -> (newer: bool)
    ensures
        newer == is_newer(candidate, reference),
{
    let distance: u32 = candidate.wrapping_sub(reference);
    distance != 0 && distance < 0x8000_0000
}

/// No timestamp is newer than itself, and of two timestamps at most one is newer than the
/// other.
pub proof fn newer_is_asymmetric(a: u32, b: u32)
    ensures
        !is_newer(a, a),
        is_newer(a, b) ==> !is_newer(b, a),
{
}

/// Of two distinct timestamps that are not exactly half the circle apart, one is newer.
pub proof fn newer_is_total_off_the_antipode(a: u32, b: u32)
    requires
        a != b,
        timestamp_distance(a, b) != 0x8000_0000,
    ensures
        is_newer(a, b) || is_newer(b, a),
{
}

/// A timestamp is newer than another exactly when it is reached from it by going ahead less than
/// half the circle of 32 bits.
pub proof fn newer_lies_less_than_half_the_circle_ahead(reference: u32, ticks: int)
    requires
        0 <= ticks < 0x1_0000_0000,
    ensures
        is_newer(((reference + ticks) % 0x1_0000_0000) as u32, reference) <==> 0 < ticks
            < 0x8000_0000,
        timestamp_distance(reference, ((reference + ticks) % 0x1_0000_0000) as u32) == ticks,
{
}

/// Going so many places on from a sequence number comes to one that lies that far ahead, round the
/// circle of 16 bits.
pub proof fn places_are_counted_round_the_circle(from: u16, places: int)
    requires
        0 <= places < 0x1_0000,
    ensures
        sequence_distance(from, sequence_offset(from, places)) == places,
        sequence_offset(sequence_offset(from, places), -places) == from,
        sequence_offset(from, places) == (from + places) % 0x1_0000,
{
}

} // verus!
