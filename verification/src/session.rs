//! The per-display session state machine: bind → wait for hello → decoder
//! init → streaming → hot reload or reconnect → terminal.
//!
//! The machine decides; the surrounding runtime performs the actions it
//! returns (spawning or closing the blocking decoder worker, forwarding a
//! frame, pausing briefly between sessions) and feeds the next event back.

use vstd::prelude::*;
use crate::config::StreamConfig;

verus! {

/// Milliseconds the orchestrator waits between sessions before accepting
/// the next connection.
pub const RECONNECT_COOLDOWN_MS: u64 = 300;

/// Where one display's session currently stands.
#[derive(Debug, Clone, Copy, PartialEq, Eq, Structural)]
pub enum DisplayPhase {
    /// Waiting for a `SessionStarted` from the signaling server.
    WaitingForHello,
    /// A decoder is being created for this configuration.
    DecoderInit { config: StreamConfig },
    /// Frames flow to the decoder.
    Streaming { config: StreamConfig },
    /// Brief pause after a session ended, before the next one.
    Cooldown,
    /// The channels closed; this display never restarts.
    Terminal,
}

/// What happened, as observed by the orchestrator's select loop.
#[derive(Debug, Clone, Copy, PartialEq, Eq, Structural)]
pub enum SessionEvent {
    /// The signaling server reported a session start with this configuration.
    Started { config: StreamConfig },
    /// The signaling server reported a session stop.
    Stopped,
    /// The client disconnected.
    Disconnected,
    /// The client sent a configuration update.
    ConfigUpdated { config: StreamConfig },
    /// A reassembled frame arrived on the frame channel.
    FrameArrived,
    /// Handing a frame to the decoder worker failed: the worker is gone.
    ForwardFailed,
    /// The decoder worker came up.
    DecoderReady,
    /// The decoder could not be created.
    DecoderFailed,
    /// The reconnect pause elapsed.
    CooldownElapsed,
    /// The frame and event channels are closed: the transport shut down.
    ChannelsClosed,
}

/// What the orchestrator must do next, in order.
#[derive(Debug, Clone, Copy, PartialEq, Eq, Structural)]
pub enum DisplayAction {
    /// Create a decoder worker for this configuration on a dedicated thread.
    InitDecoder { config: StreamConfig },
    /// Drop the decoder channel and await the worker's exit.
    CloseDecoder,
    /// Hand the arrived frame to the decoder worker.
    ForwardFrame,
    /// Sleep for [`RECONNECT_COOLDOWN_MS`] before listening again.
    StartCooldown,
}

/// Why the streaming loop ended.
#[derive(Debug, Clone, Copy, PartialEq, Eq, Structural)]
pub enum ExitReason {
    SessionStopped,
    ClientDisconnected,
    ConfigUpdated,
    DecodeThreadGone,
    ChannelsClosed,
}

/// Two configurations call for the same decoder exactly when their
/// resolutions agree; other fields do not restart the pipeline.
pub open spec fn spec_same_resolution(a: StreamConfig, b: StreamConfig) -> bool {
    a.resolution.width == b.resolution.width && a.resolution.height == b.resolution.height
}

/// One step of the display state machine: the next phase, the actions to
/// perform in order, and the exit reason when a streaming session ended.
pub open spec fn spec_display_step(phase: DisplayPhase, event: SessionEvent) -> (
    DisplayPhase,
    Seq<DisplayAction>,
    Option<ExitReason>,
) {
    match phase {
        DisplayPhase::WaitingForHello => match event {
            SessionEvent::Started { config } => (
                DisplayPhase::DecoderInit { config },
                seq![DisplayAction::InitDecoder { config }],
                Option::None,
            ),
            SessionEvent::ChannelsClosed => (
                DisplayPhase::Terminal,
                Seq::empty(),
                Option::Some(ExitReason::ChannelsClosed),
            ),
            _ => (phase, Seq::empty(), Option::None),
        },
        DisplayPhase::DecoderInit { config } => match event {
            SessionEvent::DecoderReady => (
                DisplayPhase::Streaming { config },
                Seq::empty(),
                Option::None,
            ),
            SessionEvent::DecoderFailed => (
                DisplayPhase::WaitingForHello,
                Seq::empty(),
                Option::None,
            ),
            SessionEvent::ChannelsClosed => (
                DisplayPhase::Terminal,
                seq![DisplayAction::CloseDecoder],
                Option::Some(ExitReason::ChannelsClosed),
            ),
            _ => (phase, Seq::empty(), Option::None),
        },
        DisplayPhase::Streaming { config } => match event {
            SessionEvent::FrameArrived => (
                phase,
                seq![DisplayAction::ForwardFrame],
                Option::None,
            ),
            SessionEvent::ForwardFailed => (
                DisplayPhase::Cooldown,
                seq![DisplayAction::CloseDecoder, DisplayAction::StartCooldown],
                Option::Some(ExitReason::DecodeThreadGone),
            ),
            SessionEvent::Stopped => (
                DisplayPhase::Cooldown,
                seq![DisplayAction::CloseDecoder, DisplayAction::StartCooldown],
                Option::Some(ExitReason::SessionStopped),
            ),
            SessionEvent::Disconnected => (
                DisplayPhase::Cooldown,
                seq![DisplayAction::CloseDecoder, DisplayAction::StartCooldown],
                Option::Some(ExitReason::ClientDisconnected),
            ),
            SessionEvent::ConfigUpdated { config: new_config } => {
                if spec_same_resolution(config, new_config) {
                    (phase, Seq::empty(), Option::None)
                } else {
                    (
                        DisplayPhase::DecoderInit { config: new_config },
                        seq![
                            DisplayAction::CloseDecoder,
                            DisplayAction::InitDecoder { config: new_config },
                        ],
                        Option::Some(ExitReason::ConfigUpdated),
                    )
                }
            },
            SessionEvent::ChannelsClosed => (
                DisplayPhase::Terminal,
                seq![DisplayAction::CloseDecoder],
                Option::Some(ExitReason::ChannelsClosed),
            ),
            _ => (phase, Seq::empty(), Option::None),
        },
        DisplayPhase::Cooldown => match event {
            SessionEvent::CooldownElapsed => (
                DisplayPhase::WaitingForHello,
                Seq::empty(),
                Option::None,
            ),
            SessionEvent::ChannelsClosed => (
                DisplayPhase::Terminal,
                Seq::empty(),
                Option::Some(ExitReason::ChannelsClosed),
            ),
            _ => (phase, Seq::empty(), Option::None),
        },
        DisplayPhase::Terminal => (phase, Seq::empty(), Option::None),
    }
}

/// Run one step of the display state machine.
pub fn display_step(phase: DisplayPhase, event: SessionEvent) -> (r: (
    DisplayPhase,
    Vec<DisplayAction>,
    Option<ExitReason>,
))
    ensures
        r.0 == spec_display_step(phase, event).0,
        r.1@ == spec_display_step(phase, event).1,
        r.2 == spec_display_step(phase, event).2,
{
    let ghost expected = spec_display_step(phase, event);
    let mut actions: Vec<DisplayAction> = Vec::new();
    let (next, reason): (DisplayPhase, Option<ExitReason>) = match phase {
        DisplayPhase::WaitingForHello => match event {
            SessionEvent::Started { config } => {
                actions.push(DisplayAction::InitDecoder { config });
                (DisplayPhase::DecoderInit { config }, None)
            },
            SessionEvent::ChannelsClosed => (
                DisplayPhase::Terminal,
                Some(ExitReason::ChannelsClosed),
            ),
            _ => (phase, None),
        },
        DisplayPhase::DecoderInit { config } => match event {
            SessionEvent::DecoderReady => (DisplayPhase::Streaming { config }, None),
            SessionEvent::DecoderFailed => (DisplayPhase::WaitingForHello, None),
            SessionEvent::ChannelsClosed => {
                actions.push(DisplayAction::CloseDecoder);
                (DisplayPhase::Terminal, Some(ExitReason::ChannelsClosed))
            },
            _ => (phase, None),
        },
        DisplayPhase::Streaming { config } => match event {
            SessionEvent::FrameArrived => {
                actions.push(DisplayAction::ForwardFrame);
                (phase, None)
            },
            SessionEvent::ForwardFailed => {
                actions.push(DisplayAction::CloseDecoder);
                actions.push(DisplayAction::StartCooldown);
                (DisplayPhase::Cooldown, Some(ExitReason::DecodeThreadGone))
            },
            SessionEvent::Stopped => {
                actions.push(DisplayAction::CloseDecoder);
                actions.push(DisplayAction::StartCooldown);
                (DisplayPhase::Cooldown, Some(ExitReason::SessionStopped))
            },
            SessionEvent::Disconnected => {
                actions.push(DisplayAction::CloseDecoder);
                actions.push(DisplayAction::StartCooldown);
                (DisplayPhase::Cooldown, Some(ExitReason::ClientDisconnected))
            },
            SessionEvent::ConfigUpdated { config: new_config } => {
                if config.resolution.width == new_config.resolution.width
                    && config.resolution.height == new_config.resolution.height {
                    (phase, None)
                } else {
                    actions.push(DisplayAction::CloseDecoder);
                    actions.push(DisplayAction::InitDecoder { config: new_config });
                    (
                        DisplayPhase::DecoderInit { config: new_config },
                        Some(ExitReason::ConfigUpdated),
                    )
                }
            },
            SessionEvent::ChannelsClosed => {
                actions.push(DisplayAction::CloseDecoder);
                (DisplayPhase::Terminal, Some(ExitReason::ChannelsClosed))
            },
            _ => (phase, None),
        },
        DisplayPhase::Cooldown => match event {
            SessionEvent::CooldownElapsed => (DisplayPhase::WaitingForHello, None),
            SessionEvent::ChannelsClosed => (
                DisplayPhase::Terminal,
                Some(ExitReason::ChannelsClosed),
            ),
            _ => (phase, None),
        },
        DisplayPhase::Terminal => (phase, None),
    };
    proof {
        assert(actions@ =~= expected.1);
    }
    (next, actions, reason)
}

/// Law: a configuration update whose resolution equals the active one does
/// not close the decoder — the machine stays streaming untouched; one whose
/// resolution differs ends streaming with reason `ConfigUpdated` and starts
/// a fresh decoder on the new configuration at once, without returning to
/// `WaitingForHello` — the signaling session stays up and no new hello is
/// needed.
pub proof fn lemma_hot_reload(config: StreamConfig, new_config: StreamConfig)
    ensures
        spec_same_resolution(config, new_config) ==> spec_display_step(
            DisplayPhase::Streaming { config },
            SessionEvent::ConfigUpdated { config: new_config },
        ) == (
            DisplayPhase::Streaming { config },
            Seq::<DisplayAction>::empty(),
            Option::<ExitReason>::None,
        ),
        !spec_same_resolution(config, new_config) ==> ({
            let r = spec_display_step(
                DisplayPhase::Streaming { config },
                SessionEvent::ConfigUpdated { config: new_config },
            );
            &&& r.0 == (DisplayPhase::DecoderInit { config: new_config })
            &&& r.0 != DisplayPhase::WaitingForHello
            &&& r.1 == seq![
                DisplayAction::CloseDecoder,
                DisplayAction::InitDecoder { config: new_config },
            ]
            &&& r.2 == Option::Some(ExitReason::ConfigUpdated)
        }),
{
}

/// Law: only `ChannelsClosed` makes a display terminal; every other event
/// leaves the machine able to serve another session.
pub proof fn lemma_only_channels_closed_terminates(phase: DisplayPhase, event: SessionEvent)
    requires
        phase != DisplayPhase::Terminal,
        event != SessionEvent::ChannelsClosed,
    ensures
        spec_display_step(phase, event).0 != DisplayPhase::Terminal,
{
}

} // verus!
