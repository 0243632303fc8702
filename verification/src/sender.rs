//! The sender side: the handshake result, one display's pipeline
//! configuration, and the state machine driving connect → hello →
//! capture → encode → send.

use vstd::prelude::*;
use crate::signaling::{MessageType, SignalingMessage};

verus! {

/// Result of the `hello` / `hello_ack` handshake.
#[derive(Debug, Clone)]
pub struct HelloAck {
    pub accepted: bool,
    pub reason: Option<String>,
    pub session_id: Option<String>,
}

/// Read the handshake result out of a signaling message: `hello_ack`
/// messages yield one — a missing `accepted` field counts as rejection —
/// and every other message is ignored while waiting.
pub fn hello_ack_of(msg: &SignalingMessage) -> (r: Option<HelloAck>)
    ensures
        msg.msg_type == MessageType::HelloAck <==> r is Some,
        msg.msg_type == MessageType::HelloAck ==> {
            let ack = r->Some_0;
            &&& ack.accepted == (msg@.accepted == Option::Some(true))
            &&& (match ack.reason {
                Option::Some(ref t) => msg@.reason == Option::Some(t@),
                Option::None => msg@.reason is None,
            })
            &&& (match ack.session_id {
                Option::Some(ref t) => msg@.session_id == Option::Some(t@),
                Option::None => msg@.session_id is None,
            })
        },
{
    match msg.msg_type {
        MessageType::HelloAck => {
            let accepted = match &msg.accepted {
                Some(a) => *a,
                None => false,
            };
            let reason = match &msg.reason {
                Some(t) => Some(t.clone()),
                None => None,
            };
            let session_id = match &msg.session_id {
                Some(t) => Some(t.clone()),
                None => None,
            };
            Some(HelloAck { accepted, reason, session_id })
        },
        _ => None,
    }
}

/// Configuration for a single display's sender pipeline.
#[derive(Debug, Clone)]
pub struct PipelineConfig {
    pub host: String,
    pub pairing_pin: String,
    pub display_index: u8,
    pub width: u32,
    pub height: u32,
    pub fps: u32,
    pub bitrate_kbps: u32,
}

impl Default for PipelineConfig {
    fn default() -> (c: PipelineConfig)
        ensures
            c.host@ == "192.168.1.100"@,
            c.pairing_pin@ == "000000"@,
            c.display_index == 0,
            c.width == 1920,
            c.height == 1080,
            c.fps == 60,
            c.bitrate_kbps == 8000,
    {
        PipelineConfig {
            host: String::from_str("192.168.1.100"),
            pairing_pin: String::from_str("000000"),
            display_index: 0,
            width: 1920,
            height: 1080,
            fps: 60,
            bitrate_kbps: 8000,
        }
    }
}

/// Externally visible state of a sender pipeline.
#[derive(Debug, Clone, PartialEq, Eq)]
pub enum PipelineState {
    Connecting,
    Streaming,
    /// Stopped cleanly.
    Stopped,
    /// Failed with an error message.
    Failed(String),
}

/// Where the sender pipeline stands.
#[derive(Debug, Clone, Copy, PartialEq, Eq, Structural)]
pub enum SenderPhase {
    /// Opening the TLS signaling connection.
    ConnectingSignaling,
    /// Hello sent; waiting for the ack.
    AwaitingAck,
    /// Opening the UDP video socket.
    ConnectingVideo,
    /// Opening the screen capture.
    OpeningCapture,
    /// Building the encoder.
    CreatingEncoder,
    /// Capturing, encoding and sending.
    Streaming,
    Stopped,
    Failed,
}

/// What the sender's loop observed.
#[derive(Debug, Clone, Copy, PartialEq, Eq, Structural)]
pub enum SenderEvent {
    SignalingConnected,
    SignalingFailed,
    /// The receiver accepted the hello.
    AckAccepted,
    /// The receiver rejected the hello.
    AckRejected,
    VideoConnected,
    VideoFailed,
    CaptureOpened,
    CaptureFailed,
    EncoderReady,
    EncoderFailed,
    /// A raw frame came out of the capture.
    RawFrame,
    /// An encoded access unit came out of the encoder.
    FrameEncoded,
    /// The capture reached end of stream.
    CaptureEnded,
    /// The encoder reached end of stream.
    EncoderEnded,
    /// The 1 Hz keepalive timer fired.
    KeepaliveTick,
    /// Sending a keepalive failed.
    KeepaliveFailed,
    /// The receiver forwarded an input event.
    InputEventReceived,
    /// The signaling connection closed.
    SignalingClosed,
    /// The user asked the pipeline to stop.
    StopRequested,
}

/// What the sender must do next.
#[derive(Debug, Clone, Copy, PartialEq, Eq, Structural)]
pub enum SenderAction {
    SendHello,
    ConnectVideo,
    OpenCapture,
    CreateEncoder,
    /// Push the captured frame into the encoder.
    PushFrameToEncoder,
    /// Packetise and send the encoded frame over UDP.
    SendFrame,
    SendKeepalive,
    /// Inject the received input event into the local desktop.
    InjectInput,
    /// Send `stop` and drain the encoder.
    SendStop,
}

/// One step of the sender pipeline state machine.
pub open spec fn spec_sender_step(phase: SenderPhase, event: SenderEvent) -> (
    SenderPhase,
    Seq<SenderAction>,
) {
    match phase {
        SenderPhase::ConnectingSignaling => match event {
            SenderEvent::SignalingConnected => (
                SenderPhase::AwaitingAck,
                seq![SenderAction::SendHello],
            ),
            SenderEvent::SignalingFailed => (SenderPhase::Failed, Seq::empty()),
            _ => (phase, Seq::empty()),
        },
        SenderPhase::AwaitingAck => match event {
            SenderEvent::AckAccepted => (
                SenderPhase::ConnectingVideo,
                seq![SenderAction::ConnectVideo],
            ),
            SenderEvent::AckRejected => (SenderPhase::Failed, Seq::empty()),
            SenderEvent::SignalingFailed | SenderEvent::SignalingClosed => (
                SenderPhase::Failed,
                Seq::empty(),
            ),
            _ => (phase, Seq::empty()),
        },
        SenderPhase::ConnectingVideo => match event {
            SenderEvent::VideoConnected => (
                SenderPhase::OpeningCapture,
                seq![SenderAction::OpenCapture],
            ),
            SenderEvent::VideoFailed => (SenderPhase::Failed, Seq::empty()),
            _ => (phase, Seq::empty()),
        },
        SenderPhase::OpeningCapture => match event {
            SenderEvent::CaptureOpened => (
                SenderPhase::CreatingEncoder,
                seq![SenderAction::CreateEncoder],
            ),
            SenderEvent::CaptureFailed => (SenderPhase::Failed, Seq::empty()),
            _ => (phase, Seq::empty()),
        },
        SenderPhase::CreatingEncoder => match event {
            SenderEvent::EncoderReady => (SenderPhase::Streaming, Seq::empty()),
            SenderEvent::EncoderFailed => (SenderPhase::Failed, Seq::empty()),
            _ => (phase, Seq::empty()),
        },
        SenderPhase::Streaming => match event {
            SenderEvent::RawFrame => (phase, seq![SenderAction::PushFrameToEncoder]),
            SenderEvent::FrameEncoded => (phase, seq![SenderAction::SendFrame]),
            SenderEvent::KeepaliveTick => (phase, seq![SenderAction::SendKeepalive]),
            SenderEvent::InputEventReceived => (phase, seq![SenderAction::InjectInput]),
            SenderEvent::StopRequested | SenderEvent::CaptureEnded | SenderEvent::EncoderEnded
                | SenderEvent::KeepaliveFailed | SenderEvent::SignalingClosed => (
                SenderPhase::Stopped,
                seq![SenderAction::SendStop],
            ),
            _ => (phase, Seq::empty()),
        },
        SenderPhase::Stopped => (phase, Seq::empty()),
        SenderPhase::Failed => (phase, Seq::empty()),
    }
}

/// Run one step of the sender pipeline state machine.
pub fn sender_step(phase: SenderPhase, event: SenderEvent) -> (r: (
    SenderPhase,
    Vec<SenderAction>,
))
    ensures
        r.0 == spec_sender_step(phase, event).0,
        r.1@ == spec_sender_step(phase, event).1,
{
    let ghost expected = spec_sender_step(phase, event);
    let mut actions: Vec<SenderAction> = Vec::new();
    let next: SenderPhase = match phase {
        SenderPhase::ConnectingSignaling => match event {
            SenderEvent::SignalingConnected => {
                actions.push(SenderAction::SendHello);
                SenderPhase::AwaitingAck
            },
            SenderEvent::SignalingFailed => SenderPhase::Failed,
            _ => phase,
        },
        SenderPhase::AwaitingAck => match event {
            SenderEvent::AckAccepted => {
                actions.push(SenderAction::ConnectVideo);
                SenderPhase::ConnectingVideo
            },
            SenderEvent::AckRejected => SenderPhase::Failed,
            SenderEvent::SignalingFailed | SenderEvent::SignalingClosed => SenderPhase::Failed,
            _ => phase,
        },
        SenderPhase::ConnectingVideo => match event {
            SenderEvent::VideoConnected => {
                actions.push(SenderAction::OpenCapture);
                SenderPhase::OpeningCapture
            },
            SenderEvent::VideoFailed => SenderPhase::Failed,
            _ => phase,
        },
        SenderPhase::OpeningCapture => match event {
            SenderEvent::CaptureOpened => {
                actions.push(SenderAction::CreateEncoder);
                SenderPhase::CreatingEncoder
            },
            SenderEvent::CaptureFailed => SenderPhase::Failed,
            _ => phase,
        },
        SenderPhase::CreatingEncoder => match event {
            SenderEvent::EncoderReady => SenderPhase::Streaming,
            SenderEvent::EncoderFailed => SenderPhase::Failed,
            _ => phase,
        },
        SenderPhase::Streaming => match event {
            SenderEvent::RawFrame => {
                actions.push(SenderAction::PushFrameToEncoder);
                phase
            },
            SenderEvent::FrameEncoded => {
                actions.push(SenderAction::SendFrame);
                phase
            },
            SenderEvent::KeepaliveTick => {
                actions.push(SenderAction::SendKeepalive);
                phase
            },
            SenderEvent::InputEventReceived => {
                actions.push(SenderAction::InjectInput);
                phase
            },
            SenderEvent::StopRequested | SenderEvent::CaptureEnded | SenderEvent::EncoderEnded
                | SenderEvent::KeepaliveFailed | SenderEvent::SignalingClosed => {
                actions.push(SenderAction::SendStop);
                SenderPhase::Stopped
            },
            _ => phase,
        },
        SenderPhase::Stopped => phase,
        SenderPhase::Failed => phase,
    };
    proof {
        assert(actions@ =~= expected.1);
    }
    (next, actions)
}

/// The externally visible state for a phase; the reason accompanies a
/// failure.
pub fn pipeline_state_of(phase: SenderPhase, failure_reason: String) -> (s: PipelineState)
    ensures
        s == (match phase {
            SenderPhase::Streaming => PipelineState::Streaming,
            SenderPhase::Stopped => PipelineState::Stopped,
            SenderPhase::Failed => PipelineState::Failed(failure_reason),
            _ => PipelineState::Connecting,
        }),
{
    match phase {
        SenderPhase::Streaming => PipelineState::Streaming,
        SenderPhase::Stopped => PipelineState::Stopped,
        SenderPhase::Failed => PipelineState::Failed(failure_reason),
        _ => PipelineState::Connecting,
    }
}

} // verus!
