//! The core of a game-streaming client for a handheld console.
//!
//! A console sends video and audio over a peer connection and takes input back. This library
//! decides everything in between; it does no I/O and reads no clock. Times are nanoseconds that
//! the caller hands in.
//!
//! - Negotiation: [`sdp`] edits session descriptions, which [`lines`] and [`text`] take apart;
//!   [`negotiation`] says what is offered; [`protocol`] speaks with the console over the data
//!   channels, and [`input`] packs what it is sent.
//! - Reception: [`packet`] holds what arrives, [`video_rtp`] puts it together to access units
//!   ([`frame`], [`h264`]) and counts what is lost, [`audio_rtp`] does so for sound, [`feedback`]
//!   reports arrivals, and [`media`] and [`session`] route packets and decide when to ask for a
//!   keyframe, when to throw a backlog away and which bitrate to ask for.
//! - Decoding: [`decode_worker`] queues access units and sends [`commands`], [`decode_loop`] takes them in at a steady
//!   pace, and [`video`] and [`surface`] say which decoded frame is shown.
//! - Interface: [`hud`] words what is shown over the video, [`pixels`], [`mesh`] and
//!   [`textures`] draw it, [`settings`] holds what the user can change, and [`power`] which
//!   clocks a session asks for.
//!
//! What holds across functions is proved in [`video_laws`], [`session_laws`], [`sdp_laws`] and
//! [`input_laws`], and at the end of the module it is about.

pub mod audio_rtp;
pub mod commands;
pub mod decode_loop;
pub mod decode_worker;
pub mod feedback;
pub mod frame;
pub mod h264;
pub mod hud;
pub mod input;
pub mod input_laws;
pub mod lines;
pub mod media;
pub mod mesh;
pub mod negotiation;
pub mod packet;
pub mod pixels;
pub mod power;
pub mod protocol;
pub mod sdp;
pub mod sdp_laws;
pub mod session;
pub mod session_laws;
pub mod settings;
pub mod surface;
pub mod text;
pub mod textures;
pub mod video;
pub mod video_laws;
pub mod video_rtp;
