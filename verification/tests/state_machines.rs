//! State machine tests: signaling server, display session, sender pipeline,
//! the input queue, and the shared data types.

use duallink::config::{Resolution, StreamConfig, VideoCodec};
use duallink::errors::{DecoderError, DualLinkError, TransportError};
use duallink::gui::Phase;
use duallink::input::{GesturePhase, InputEvent, InputQueue, MouseButton};
use duallink::sender::{
    hello_ack_of, pipeline_state_of, sender_step, PipelineConfig, PipelineState, SenderAction,
    SenderEvent, SenderPhase,
};
use duallink::session::{
    display_step, DisplayAction, DisplayPhase, ExitReason, SessionEvent,
};
use duallink::signaling::{
    server_step, ConnInput, MessageType, ServerAction, ServerConnState, SignalingEvent,
    SignalingMessage,
};
use duallink::types::{ConnectionState, PeerInfo};

fn hello(pin: &str, sid: &str) -> ConnInput {
    ConnInput::Message(SignalingMessage::hello(
        sid.to_string(),
        "mac-book".to_string(),
        StreamConfig::default(),
        pin.to_string(),
        0,
    ))
}

#[test]
fn wrong_pin_is_rejected_and_no_session_starts() {
    let st = ServerConnState::initial();
    let pin = "123456".to_string();
    let peer = "10.0.1.2:50000".to_string();
    let (next, actions) = server_step(st, &hello("000000", "s-1"), &pin, &peer);
    assert!(next.closed);
    assert_eq!(actions.len(), 2);
    match &actions[0] {
        ServerAction::SendHelloAck { session_id, accepted, reason } => {
            assert_eq!(session_id, "s-1");
            assert!(!accepted);
            assert_eq!(reason.as_deref(), Some("Invalid pairing PIN"));
        }
        other => panic!("expected rejecting ack, got {:?}", other),
    }
    assert!(matches!(actions[1], ServerAction::CloseConnection));
    for a in &actions {
        assert!(!matches!(
            a,
            ServerAction::Emit(SignalingEvent::SessionStarted { .. })
        ));
    }
}

#[test]
fn correct_pin_starts_the_session_and_forwarder() {
    let st = ServerConnState::initial();
    let pin = "123456".to_string();
    let peer = "10.0.1.2:50000".to_string();
    let (next, actions) = server_step(st, &hello("123456", "s-2"), &pin, &peer);
    assert!(!next.closed);
    assert!(next.session_active);
    assert_eq!(actions.len(), 3);
    match &actions[0] {
        ServerAction::SendHelloAck { accepted, reason, .. } => {
            assert!(*accepted);
            assert!(reason.is_none());
        }
        other => panic!("expected accepting ack, got {:?}", other),
    }
    match &actions[1] {
        ServerAction::Emit(SignalingEvent::SessionStarted {
            session_id,
            device_name,
            config,
            client_addr,
        }) => {
            assert_eq!(session_id, "s-2");
            assert_eq!(device_name, "mac-book");
            assert_eq!(*config, StreamConfig::default());
            assert_eq!(client_addr, &peer);
        }
        other => panic!("expected session start, got {:?}", other),
    }
    assert!(matches!(actions[2], ServerAction::StartInputForwarder));

    // A second hello on the same connection does not start a second
    // forwarder.
    let (_, actions2) = server_step(next, &hello("123456", "s-3"), &pin, &peer);
    assert_eq!(actions2.len(), 2);
}

#[test]
fn started_is_emitted_before_stopped() {
    let st = ServerConnState::initial();
    let pin = "123456".to_string();
    let peer = "peer".to_string();
    let mut events = Vec::new();
    let (st1, a1) = server_step(st, &hello("123456", "s-9"), &pin, &peer);
    let stop = ConnInput::Message(SignalingMessage::stop("s-9".to_string()));
    let (st2, a2) = server_step(st1, &stop, &pin, &peer);
    for a in a1.into_iter().chain(a2.into_iter()) {
        if let ServerAction::Emit(e) = a {
            events.push(e);
        }
    }
    assert!(st2.closed);
    let started_at = events
        .iter()
        .position(|e| matches!(e, SignalingEvent::SessionStarted { .. }))
        .expect("session started");
    let stopped_at = events
        .iter()
        .position(|e| matches!(e, SignalingEvent::SessionStopped { session_id } if session_id == "s-9"))
        .expect("session stopped");
    assert!(started_at < stopped_at);
}

#[test]
fn config_update_and_keepalive_and_disconnect() {
    let pin = "1".to_string();
    let peer = "p".to_string();
    let active = ServerConnState { session_active: true, closed: false };

    let update = ConnInput::Message(SignalingMessage::config_update(
        "sid".to_string(),
        StreamConfig::high_performance(),
    ));
    let (st, actions) = server_step(active, &update, &pin, &peer);
    assert!(!st.closed);
    assert_eq!(actions.len(), 1);
    assert!(matches!(
        &actions[0],
        ServerAction::Emit(SignalingEvent::ConfigUpdated { config })
            if *config == StreamConfig::high_performance()
    ));

    let keepalive = ConnInput::Message(SignalingMessage::keepalive(42));
    let (st, actions) = server_step(active, &keepalive, &pin, &peer);
    assert!(!st.closed);
    assert!(actions.is_empty());

    let (st, actions) = server_step(active, &ConnInput::MalformedJson, &pin, &peer);
    assert!(!st.closed);
    assert!(actions.is_empty());

    let (st, actions) = server_step(active, &ConnInput::SocketClosed, &pin, &peer);
    assert!(st.closed);
    assert_eq!(actions.len(), 2);
    assert!(matches!(
        actions[0],
        ServerAction::Emit(SignalingEvent::ClientDisconnected)
    ));
    assert!(matches!(actions[1], ServerAction::CloseConnection));
}

#[test]
fn hello_ack_extraction() {
    let ack = SignalingMessage::hello_ack("sid".to_string(), true, None);
    let r = hello_ack_of(&ack).expect("hello_ack yields a result");
    assert!(r.accepted);
    assert_eq!(r.session_id.as_deref(), Some("sid"));
    assert!(r.reason.is_none());

    let nack = SignalingMessage::hello_ack(
        "sid".to_string(),
        false,
        Some("Invalid pairing PIN".to_string()),
    );
    let r = hello_ack_of(&nack).expect("hello_ack yields a result");
    assert!(!r.accepted);
    assert_eq!(r.reason.as_deref(), Some("Invalid pairing PIN"));

    assert!(hello_ack_of(&SignalingMessage::keepalive(1)).is_none());
    assert_eq!(
        SignalingMessage::input_event(InputEvent::KeyUp { keycode: 0xff0d }).msg_type,
        MessageType::InputEvent
    );
}

fn cfg(w: u32, h: u32) -> StreamConfig {
    StreamConfig { resolution: Resolution::new(w, h), ..StreamConfig::default() }
}

#[test]
fn hot_reload_on_resolution_change_only() {
    let streaming = DisplayPhase::Streaming { config: cfg(1920, 1080) };

    // Same resolution: the decoder stays up.
    let mut other = cfg(1920, 1080);
    other.target_fps = 144;
    let (next, actions, reason) = display_step(
        streaming,
        SessionEvent::ConfigUpdated { config: other },
    );
    assert_eq!(next, streaming);
    assert!(actions.is_empty());
    assert!(reason.is_none());

    // Different resolution: close, re-init with the new config, no new
    // hello needed.
    let (next, actions, reason) = display_step(
        streaming,
        SessionEvent::ConfigUpdated { config: cfg(2560, 1440) },
    );
    assert_eq!(next, DisplayPhase::DecoderInit { config: cfg(2560, 1440) });
    assert_eq!(
        actions,
        vec![
            DisplayAction::CloseDecoder,
            DisplayAction::InitDecoder { config: cfg(2560, 1440) },
        ]
    );
    assert_eq!(reason, Some(ExitReason::ConfigUpdated));
}

#[test]
fn display_session_lifecycle() {
    let start = DisplayPhase::WaitingForHello;
    let (p, actions, _) = display_step(start, SessionEvent::Started { config: cfg(1920, 1080) });
    assert_eq!(p, DisplayPhase::DecoderInit { config: cfg(1920, 1080) });
    assert_eq!(actions, vec![DisplayAction::InitDecoder { config: cfg(1920, 1080) }]);

    let (p, actions, _) = display_step(p, SessionEvent::DecoderReady);
    assert_eq!(p, DisplayPhase::Streaming { config: cfg(1920, 1080) });
    assert!(actions.is_empty());

    let (p2, actions, reason) = display_step(p, SessionEvent::FrameArrived);
    assert_eq!(p2, p);
    assert_eq!(actions, vec![DisplayAction::ForwardFrame]);
    assert!(reason.is_none());

    let (p3, actions, reason) = display_step(p2, SessionEvent::Stopped);
    assert_eq!(p3, DisplayPhase::Cooldown);
    assert_eq!(
        actions,
        vec![DisplayAction::CloseDecoder, DisplayAction::StartCooldown]
    );
    assert_eq!(reason, Some(ExitReason::SessionStopped));

    let (p4, _, _) = display_step(p3, SessionEvent::CooldownElapsed);
    assert_eq!(p4, DisplayPhase::WaitingForHello);

    // Decoder failure skips the session and waits for the next hello.
    let (p5, _, _) = display_step(
        DisplayPhase::DecoderInit { config: cfg(1920, 1080) },
        SessionEvent::DecoderFailed,
    );
    assert_eq!(p5, DisplayPhase::WaitingForHello);

    // Only closed channels are terminal.
    let (p6, _, reason) = display_step(p4, SessionEvent::ChannelsClosed);
    assert_eq!(p6, DisplayPhase::Terminal);
    assert_eq!(reason, Some(ExitReason::ChannelsClosed));
    let (p7, _, _) = display_step(p6, SessionEvent::Started { config: cfg(1, 1) });
    assert_eq!(p7, DisplayPhase::Terminal);
}

#[test]
fn disconnect_and_decoder_loss_cool_down() {
    let streaming = DisplayPhase::Streaming { config: cfg(1920, 1080) };
    let (p, _, reason) = display_step(streaming, SessionEvent::Disconnected);
    assert_eq!(p, DisplayPhase::Cooldown);
    assert_eq!(reason, Some(ExitReason::ClientDisconnected));
    let (p, _, reason) = display_step(streaming, SessionEvent::ForwardFailed);
    assert_eq!(p, DisplayPhase::Cooldown);
    assert_eq!(reason, Some(ExitReason::DecodeThreadGone));
}

#[test]
fn sender_pipeline_happy_path() {
    let (p, a) = sender_step(SenderPhase::ConnectingSignaling, SenderEvent::SignalingConnected);
    assert_eq!(p, SenderPhase::AwaitingAck);
    assert_eq!(a, vec![SenderAction::SendHello]);
    let (p, a) = sender_step(p, SenderEvent::AckAccepted);
    assert_eq!(p, SenderPhase::ConnectingVideo);
    assert_eq!(a, vec![SenderAction::ConnectVideo]);
    let (p, a) = sender_step(p, SenderEvent::VideoConnected);
    assert_eq!(p, SenderPhase::OpeningCapture);
    assert_eq!(a, vec![SenderAction::OpenCapture]);
    let (p, a) = sender_step(p, SenderEvent::CaptureOpened);
    assert_eq!(p, SenderPhase::CreatingEncoder);
    assert_eq!(a, vec![SenderAction::CreateEncoder]);
    let (p, a) = sender_step(p, SenderEvent::EncoderReady);
    assert_eq!(p, SenderPhase::Streaming);
    assert!(a.is_empty());
    let (_, a) = sender_step(p, SenderEvent::RawFrame);
    assert_eq!(a, vec![SenderAction::PushFrameToEncoder]);
    let (_, a) = sender_step(p, SenderEvent::FrameEncoded);
    assert_eq!(a, vec![SenderAction::SendFrame]);
    let (_, a) = sender_step(p, SenderEvent::KeepaliveTick);
    assert_eq!(a, vec![SenderAction::SendKeepalive]);
    let (_, a) = sender_step(p, SenderEvent::InputEventReceived);
    assert_eq!(a, vec![SenderAction::InjectInput]);
    let (p2, a) = sender_step(p, SenderEvent::StopRequested);
    assert_eq!(p2, SenderPhase::Stopped);
    assert_eq!(a, vec![SenderAction::SendStop]);
}

#[test]
fn sender_pipeline_rejection_fails() {
    let (p, a) = sender_step(SenderPhase::AwaitingAck, SenderEvent::AckRejected);
    assert_eq!(p, SenderPhase::Failed);
    assert!(a.is_empty());
    assert_eq!(
        pipeline_state_of(p, "Rejected: Invalid pairing PIN".to_string()),
        PipelineState::Failed("Rejected: Invalid pairing PIN".to_string())
    );
    assert_eq!(
        pipeline_state_of(SenderPhase::ConnectingSignaling, String::new()),
        PipelineState::Connecting
    );
    let defaults = PipelineConfig::default();
    assert_eq!(defaults.fps, 60);
    assert_eq!(defaults.bitrate_kbps, 8000);
    assert_eq!(defaults.pairing_pin, "000000");
}

#[test]
fn input_queue_keeps_order_and_drops_on_overflow() {
    let mut q = InputQueue::with_capacity(2);
    let e1 = InputEvent::MouseMove { x_micro: 0, y_micro: 0 };
    let e2 = InputEvent::MouseDown { x_micro: 1, y_micro: 2, button: MouseButton::Left };
    let e3 = InputEvent::KeyDown { keycode: 0x61, text: Some("a".to_string()) };
    assert!(q.try_send(e1.clone()));
    assert!(q.try_send(e2.clone()));
    // Full: the third event is dropped, not reordered.
    assert!(!q.try_send(e3.clone()));
    assert_eq!(q.len(), 2);
    assert_eq!(q.recv(), Some(e1));
    assert!(q.try_send(e3.clone()));
    assert_eq!(q.recv(), Some(e2));
    assert_eq!(q.recv(), Some(e3));
    assert_eq!(q.recv(), None);

    let standard = InputQueue::new();
    assert_eq!(standard.len(), 0);
}

#[test]
fn input_event_variants_carry_their_fields() {
    let pinch = InputEvent::GesturePinch {
        x_micro: 500_000,
        y_micro: 500_000,
        magnification_micro: 100_000,
        phase: GesturePhase::Changed,
    };
    match pinch {
        InputEvent::GesturePinch { magnification_micro, phase, .. } => {
            assert_eq!(magnification_micro, 100_000);
            assert_eq!(phase, GesturePhase::Changed);
        }
        _ => panic!("expected pinch"),
    }
}

#[test]
fn stream_config_defaults_and_presets() {
    let d = StreamConfig::default();
    assert_eq!(d.resolution, Resolution::new(1920, 1080));
    assert_eq!(d.target_fps, 30);
    assert_eq!(d.max_bitrate_bps, 8_000_000);
    assert_eq!(d.codec, VideoCodec::H264);
    assert!(d.low_latency_mode);

    let hp = StreamConfig::high_performance();
    assert_eq!(hp.resolution, Resolution::new(2560, 1440));
    assert_eq!(hp.target_fps, 60);
    assert_eq!(hp.max_bitrate_bps, 20_000_000);

    assert_eq!(d.frame_interval_us(), 33_333);
    assert_eq!(hp.frame_interval_us(), 16_666);
    assert_eq!(Resolution::new(3840, 2160).total_pixels(), 8_294_400);
}

#[test]
fn error_messages() {
    assert_eq!(
        TransportError::Timeout { ms: 5000 }.message(),
        "Timeout after 5000ms"
    );
    assert_eq!(
        TransportError::ConnectionClosed.message(),
        "Connection closed by peer"
    );
    assert_eq!(
        TransportError::SendFailed { reason: "pipe".to_string() }.message(),
        "Send failed: pipe"
    );
    assert_eq!(
        DecoderError::HardwareUnavailable.message(),
        "Hardware decoder unavailable, no software fallback configured"
    );
    assert_eq!(
        DualLinkError::ConnectionFailed { reason: "refused".to_string() }.message(),
        "Connection failed: refused"
    );
    assert_eq!(
        DualLinkError::Decoder(DecoderError::NotInitialized).message(),
        "Decoder error: Decoder not initialized"
    );
    assert_eq!(
        TransportError::ReceiveFailed { reason: "eof".to_string() }.message(),
        "Receive failed: eof"
    );
    assert_eq!(
        DecoderError::PipelineError("no sink".to_string()).message(),
        "Pipeline error: no sink"
    );
    assert_eq!(
        DecoderError::DecodeFailed { reason: "bad nal".to_string() }.message(),
        "Failed to decode frame: bad nal"
    );
    assert_eq!(
        DualLinkError::NotImplemented { feature: "audio".to_string() }.message(),
        "Not implemented yet: audio"
    );
    assert_eq!(
        DualLinkError::ConfigurationInvalid { reason: "fps".to_string() }.message(),
        "Configuration invalid: fps"
    );
    assert_eq!(
        DualLinkError::PermissionDenied { permission: "capture".to_string() }.message(),
        "Permission denied: capture"
    );
    assert_eq!(
        DualLinkError::StreamError { reason: "reset".to_string() }.message(),
        "Stream error: reset"
    );
}

#[test]
fn input_queue_standard_capacity_drops_at_256() {
    let mut q = InputQueue::new();
    for i in 0..256u32 {
        assert!(q.try_send(InputEvent::KeyUp { keycode: i }));
    }
    assert!(!q.try_send(InputEvent::KeyUp { keycode: 999 }));
    assert_eq!(q.len(), 256);
    assert_eq!(q.recv(), Some(InputEvent::KeyUp { keycode: 0 }));
}

#[test]
fn peer_info_and_phase() {
    let peer = PeerInfo::new(
        "id-1".to_string(),
        "mac".to_string(),
        "10.0.1.2".to_string(),
        7879,
    );
    assert_eq!(peer.socket_addr(), "10.0.1.2:7879");

    let phase = Phase::Streaming {
        peer_name: "mac".to_string(),
        peer_addr: "10.0.1.2:7879".to_string(),
    };
    assert_eq!(phase.label(), "Streaming");
    assert_eq!(phase.peer_name(), Some("mac"));
    assert_eq!(phase.peer_addr(), Some("10.0.1.2:7879"));
    assert_eq!(Phase::default().label(), "Starting…");
    assert_eq!(Phase::WaitingForClient.peer_name(), None);

    assert!(!ConnectionState::Idle.is_active());
}
