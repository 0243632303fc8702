//! Shared data types: encoded frames, peers, sessions and connection state.

use vstd::prelude::*;
use crate::config::{ConnectionMode, StreamConfig, VideoCodec};

verus! {

/// One encoded H.264/H.265 access unit, as reassembled from the wire or
/// produced by an encoder.
#[derive(Debug)]
pub struct EncodedFrame {
    pub data: Vec<u8>,
    pub timestamp_us: u64,
    pub is_keyframe: bool,
    pub codec: VideoCodec,
}

/// The mathematical value of an [`EncodedFrame`].
pub struct EncodedFrameModel {
    pub data: Seq<u8>,
    pub timestamp_us: u64,
    pub is_keyframe: bool,
    pub codec: VideoCodec,
}

impl View for EncodedFrame {
    type V = EncodedFrameModel;

    open spec fn view(&self) -> EncodedFrameModel {
        EncodedFrameModel {
            data: self.data@,
            timestamp_us: self.timestamp_us,
            is_keyframe: self.is_keyframe,
            codec: self.codec,
        }
    }
}

/// A discovered or configured remote peer.
#[derive(Debug, Clone, PartialEq, Eq)]
pub struct PeerInfo {
    pub id: String,
    pub name: String,
    pub address: String,
    pub port: u16,
}

impl PeerInfo {
    pub fn new(id: String, name: String, address: String, port: u16) -> (p: PeerInfo)
        ensures
            p.id@ == id@,
            p.name@ == name@,
            p.address@ == address@,
            p.port == port,
    {
        PeerInfo { id, name, address, port }
    }

    /// The peer's address and port joined as "address:port".
    pub fn socket_addr(&self) -> (s: String)
        ensures
            s@ == self.address@ + seq![':'] + crate::fmt::spec_chars_of_bytes(
                crate::fmt::spec_decimal_bytes(self.port as nat),
            ),
    {
        let mut s = self.address.clone();
        s.append(":");
        let digits = crate::fmt::decimal_string(self.port as u64);
        s.append(digits.as_str());
        proof {
            reveal_strlit(":");
            assert(":"@ =~= seq![':']);
        }
        s
    }
}

/// An established mirroring session.
#[derive(Debug, Clone)]
pub struct SessionInfo {
    pub session_id: String,
    pub peer: PeerInfo,
    pub config: StreamConfig,
    pub connection_mode: ConnectionMode,
}

/// Connection lifecycle of a sender, as shown in its UI.
#[derive(Debug, Clone)]
pub enum ConnectionState {
    Idle,
    Discovering,
    Connecting { peer: PeerInfo, attempt: u32 },
    Streaming { session: SessionInfo },
    Reconnecting { peer: PeerInfo, attempt: u32 },
    Error { reason: String },
}

impl ConnectionState {
    /// True exactly while a session is streaming.
    pub fn is_active(&self) -> (b: bool)
        ensures
            b == (self is Streaming),
    {
        match self {
            ConnectionState::Streaming { .. } => true,
            _ => false,
        }
    }
}

/// Values produced once at receiver startup that a UI shows to the user.
#[derive(Debug, Clone)]
pub struct StartupInfo {
    /// 6-digit pairing PIN.
    pub pairing_pin: String,
    /// Colon-separated hex SHA-256 fingerprint of the TLS certificate.
    pub tls_fingerprint: String,
}

} // verus!
