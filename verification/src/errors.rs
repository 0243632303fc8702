//! Error taxonomy.  Each variant carries a free-text reason; `message`
//! renders a human-readable line.

use vstd::prelude::*;

verus! {

/// Errors of the decoding pipeline.
#[derive(Debug, Clone, PartialEq, Eq)]
pub enum DecoderError {
    /// No hardware decoder is available and no software fallback is
    /// configured.
    HardwareUnavailable,
    /// The media pipeline failed to build or start.
    PipelineError(String),
    /// A frame could not be decoded.
    DecodeFailed { reason: String },
    /// The decoder was used before initialisation.
    NotInitialized,
}

/// Errors of the transport layer.
#[derive(Debug, Clone, PartialEq, Eq)]
pub enum TransportError {
    /// The peer closed the connection.
    ConnectionClosed,
    SendFailed { reason: String },
    ReceiveFailed { reason: String },
    /// A timeout elapsed, in milliseconds.
    Timeout { ms: u64 },
}

/// Top-level errors of the mirroring system.
#[derive(Debug, Clone, PartialEq, Eq)]
pub enum DualLinkError {
    NotImplemented { feature: String },
    ConfigurationInvalid { reason: String },
    PermissionDenied { permission: String },
    ConnectionFailed { reason: String },
    StreamError { reason: String },
    Decoder(DecoderError),
}

/// Errors of mDNS discovery.
#[derive(Debug, Clone, PartialEq, Eq)]
pub enum DiscoveryError {
    /// The mDNS daemon failed to start.
    DaemonFailed(String),
    /// Browsing for the service failed.
    BrowseFailed(String),
}

/// Errors of the renderer.
#[derive(Debug, Clone, PartialEq, Eq)]
pub enum RendererError {
    InitializationFailed(String),
    PresentFailed(String),
    /// Neither Wayland nor X11 is available.
    DisplaySystemUnavailable,
}

impl DecoderError {
    /// A readable description: the fixed text of the variant, with its
    /// reason appended where one is carried.
    pub fn message(&self) -> (s: String)
        ensures
            s@ == (match self {
                DecoderError::HardwareUnavailable => (
                "Hardware decoder unavailable, no software fallback configured"@),
                DecoderError::PipelineError(r) => "Pipeline error: "@ + r@,
                DecoderError::DecodeFailed { reason } => "Failed to decode frame: "@ + reason@,
                DecoderError::NotInitialized => "Decoder not initialized"@,
            }),
    {
        match self {
            DecoderError::HardwareUnavailable => String::from_str(
                "Hardware decoder unavailable, no software fallback configured",
            ),
            DecoderError::PipelineError(r) => {
                let mut s = String::from_str("Pipeline error: ");
                s.append(r.as_str());
                s
            },
            DecoderError::DecodeFailed { reason } => {
                let mut s = String::from_str("Failed to decode frame: ");
                s.append(reason.as_str());
                s
            },
            DecoderError::NotInitialized => String::from_str("Decoder not initialized"),
        }
    }
}

impl TransportError {
    /// A readable description of the transport failure.
    pub fn message(&self) -> (s: String)
        ensures
            s@ == (match self {
                TransportError::ConnectionClosed => "Connection closed by peer"@,
                TransportError::SendFailed { reason } => "Send failed: "@ + reason@,
                TransportError::ReceiveFailed { reason } => "Receive failed: "@ + reason@,
                TransportError::Timeout { ms } => "Timeout after "@
                    + crate::fmt::spec_chars_of_bytes(
                    crate::fmt::spec_decimal_bytes(*ms as nat),
                ) + "ms"@,
            }),
    {
        match self {
            TransportError::ConnectionClosed => String::from_str("Connection closed by peer"),
            TransportError::SendFailed { reason } => {
                let mut s = String::from_str("Send failed: ");
                s.append(reason.as_str());
                s
            },
            TransportError::ReceiveFailed { reason } => {
                let mut s = String::from_str("Receive failed: ");
                s.append(reason.as_str());
                s
            },
            TransportError::Timeout { ms } => {
                let mut s = String::from_str("Timeout after ");
                let digits = crate::fmt::decimal_string(*ms);
                s.append(digits.as_str());
                s.append("ms");
                s
            },
        }
    }
}

impl DualLinkError {
    /// A readable description of the failure.
    pub fn message(&self) -> (s: String)
        ensures
            s@ == (match self {
                DualLinkError::NotImplemented { feature } => "Not implemented yet: "@ + feature@,
                DualLinkError::ConfigurationInvalid { reason } => "Configuration invalid: "@
                    + reason@,
                DualLinkError::PermissionDenied { permission } => "Permission denied: "@
                    + permission@,
                DualLinkError::ConnectionFailed { reason } => "Connection failed: "@ + reason@,
                DualLinkError::StreamError { reason } => "Stream error: "@ + reason@,
                DualLinkError::Decoder(e) => "Decoder error: "@ + (match e {
                    DecoderError::HardwareUnavailable => (
                    "Hardware decoder unavailable, no software fallback configured"@),
                    DecoderError::PipelineError(r) => "Pipeline error: "@ + r@,
                    DecoderError::DecodeFailed { reason } => "Failed to decode frame: "@
                        + reason@,
                    DecoderError::NotInitialized => "Decoder not initialized"@,
                }),
            }),
    {
        match self {
            DualLinkError::NotImplemented { feature } => {
                let mut s = String::from_str("Not implemented yet: ");
                s.append(feature.as_str());
                s
            },
            DualLinkError::ConfigurationInvalid { reason } => {
                let mut s = String::from_str("Configuration invalid: ");
                s.append(reason.as_str());
                s
            },
            DualLinkError::PermissionDenied { permission } => {
                let mut s = String::from_str("Permission denied: ");
                s.append(permission.as_str());
                s
            },
            DualLinkError::ConnectionFailed { reason } => {
                let mut s = String::from_str("Connection failed: ");
                s.append(reason.as_str());
                s
            },
            DualLinkError::StreamError { reason } => {
                let mut s = String::from_str("Stream error: ");
                s.append(reason.as_str());
                s
            },
            DualLinkError::Decoder(e) => {
                let mut s = String::from_str("Decoder error: ");
                let inner = e.message();
                s.append(inner.as_str());
                s
            },
        }
    }
}

} // verus!
