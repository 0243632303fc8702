//! Receiver lifecycle phase, as shown in a status window.

use vstd::prelude::*;

verus! {

/// The receiver's lifecycle phase.
#[derive(Debug, Clone, PartialEq, Eq)]
pub enum Phase {
    Starting,
    WaitingForClient,
    Connected { peer_name: String, peer_addr: String },
    Streaming { peer_name: String, peer_addr: String },
    Error(String),
}

impl Default for Phase {
    fn default() -> (p: Phase)
        ensures
            p == Phase::Starting,
    {
        Phase::Starting
    }
}

impl Phase {
    /// The label shown for this phase.
    pub fn label(&self) -> (s: &'static str)
        ensures
            s@ == (match self {
                Phase::Starting => "Starting…"@,
                Phase::WaitingForClient => "Waiting for client"@,
                Phase::Connected { .. } => "Client connected"@,
                Phase::Streaming { .. } => "Streaming"@,
                Phase::Error(_) => "Error"@,
            }),
    {
        match self {
            Phase::Starting => "Starting…",
            Phase::WaitingForClient => "Waiting for client",
            Phase::Connected { .. } => "Client connected",
            Phase::Streaming { .. } => "Streaming",
            Phase::Error(_) => "Error",
        }
    }

    /// The connected peer's name, while one is connected or streaming.
    pub fn peer_name(&self) -> (r: Option<&str>)
        ensures
            match self {
                Phase::Connected { peer_name, .. } | Phase::Streaming { peer_name, .. } => r
                    matches Option::Some(n) && n@ == peer_name@,
                _ => r is None,
            },
    {
        match self {
            Phase::Connected { peer_name, .. } | Phase::Streaming { peer_name, .. } => Some(
                peer_name.as_str(),
            ),
            _ => None,
        }
    }

    /// The connected peer's address, while one is connected or streaming.
    pub fn peer_addr(&self) -> (r: Option<&str>)
        ensures
            match self {
                Phase::Connected { peer_addr, .. } | Phase::Streaming { peer_addr, .. } => r
                    matches Option::Some(a) && a@ == peer_addr@,
                _ => r is None,
            },
    {
        match self {
            Phase::Connected { peer_addr, .. } | Phase::Streaming { peer_addr, .. } => Some(
                peer_addr.as_str(),
            ),
            _ => None,
        }
    }
}

} // verus!
