//! DualLink: a low-latency screen-mirroring protocol library.
//!
//! A sender captures displays, H.264-encodes them and streams the output over
//! a fragmented UDP datagram protocol; a receiver reassembles the frames,
//! decodes them, and forwards local input events back over a length-prefixed
//! TLS control channel.  This crate holds the protocol logic: the wire codec,
//! the frame reassembler, the signaling and session state machines, the input
//! queue, and the TLS identity material, each with its contract.

pub mod config;
pub mod errors;
pub mod gui;
pub mod discovery;
pub mod dlnk;
pub mod fmt;
pub mod framing;
pub mod identity;
pub mod input;
pub mod ports;
pub mod reassembler;
pub mod sender;
pub mod session;
pub mod sha256;
pub mod signaling;
pub mod types;

pub use ports::{video_port, signaling_port, VIDEO_PORT, SIGNALING_PORT};
