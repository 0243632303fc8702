//! The signaling protocol: the messages exchanged on the TLS control
//! channel, and the receiver-side per-connection state machine that
//! validates the pairing PIN on `hello`, emits session events, and decides
//! when the connection closes.

use vstd::prelude::*;
use crate::config::StreamConfig;
use crate::input::InputEvent;

verus! {

/// The wire tag of a signaling message.
#[derive(Debug, Clone, Copy, PartialEq, Eq, Structural)]
pub enum MessageType {
    Hello,
    HelloAck,
    ConfigUpdate,
    Keepalive,
    Stop,
    InputEvent,
}

/// One signaling message; fields the wire did not carry are `None`.
#[derive(Debug, Clone)]
pub struct SignalingMessage {
    pub msg_type: MessageType,
    pub session_id: Option<String>,
    pub device_name: Option<String>,
    pub config: Option<StreamConfig>,
    pub accepted: Option<bool>,
    pub reason: Option<String>,
    pub timestamp_ms: Option<u64>,
    pub input_event: Option<InputEvent>,
    pub pairing_pin: Option<String>,
    pub display_index: Option<u8>,
}

/// The fields of a message that the server's decisions read.
pub struct MsgModel {
    pub msg_type: MessageType,
    pub session_id: Option<Seq<char>>,
    pub device_name: Option<Seq<char>>,
    pub config: Option<StreamConfig>,
    pub accepted: Option<bool>,
    pub reason: Option<Seq<char>>,
    pub timestamp_ms: Option<u64>,
    pub pairing_pin: Option<Seq<char>>,
    pub display_index: Option<u8>,
}

impl View for SignalingMessage {
    type V = MsgModel;

    open spec fn view(&self) -> MsgModel {
        MsgModel {
            msg_type: self.msg_type,
            session_id: match self.session_id {
                Option::Some(ref s) => Option::Some(s@),
                Option::None => Option::None,
            },
            device_name: match self.device_name {
                Option::Some(ref s) => Option::Some(s@),
                Option::None => Option::None,
            },
            config: self.config,
            accepted: self.accepted,
            reason: match self.reason {
                Option::Some(ref s) => Option::Some(s@),
                Option::None => Option::None,
            },
            timestamp_ms: self.timestamp_ms,
            pairing_pin: match self.pairing_pin {
                Option::Some(ref s) => Option::Some(s@),
                Option::None => Option::None,
            },
            display_index: self.display_index,
        }
    }
}

impl SignalingMessage {
    /// A message with every optional field empty.
    fn empty(msg_type: MessageType) -> (m: SignalingMessage)
        ensures
            m.msg_type == msg_type,
            m@.session_id is None,
            m@.device_name is None,
            m@.config is None,
            m@.accepted is None,
            m@.reason is None,
            m@.timestamp_ms is None,
            m.input_event is None,
            m@.pairing_pin is None,
            m@.display_index is None,
    {
        SignalingMessage {
            msg_type,
            session_id: None,
            device_name: None,
            config: None,
            accepted: None,
            reason: None,
            timestamp_ms: None,
            input_event: None,
            pairing_pin: None,
            display_index: None,
        }
    }

    /// The `hello_ack` reply to a `hello`.
    pub fn hello_ack(session_id: String, accepted: bool, reason: Option<String>) -> (m:
        SignalingMessage)
        ensures
            m.msg_type == MessageType::HelloAck,
            m@.session_id == Option::Some(session_id@),
            m@.accepted == Option::Some(accepted),
            m@.reason == (match reason {
                Option::Some(r) => Option::Some(r@),
                Option::None => Option::<Seq<char>>::None,
            }),
    {
        let mut m = Self::empty(MessageType::HelloAck);
        m.session_id = Some(session_id);
        m.accepted = Some(accepted);
        m.reason = reason;
        m
    }

    /// The `input_event` message forwarding one event to the peer.
    pub fn input_event(event: InputEvent) -> (m: SignalingMessage)
        ensures
            m.msg_type == MessageType::InputEvent,
            m.input_event == Option::Some(event),
    {
        let mut m = Self::empty(MessageType::InputEvent);
        m.input_event = Some(event);
        m
    }

    /// The `hello` that opens a session.
    pub fn hello(
        session_id: String,
        device_name: String,
        config: StreamConfig,
        pairing_pin: String,
        display_index: u8,
    ) -> (m: SignalingMessage)
        ensures
            m.msg_type == MessageType::Hello,
            m@.session_id == Option::Some(session_id@),
            m@.device_name == Option::Some(device_name@),
            m@.config == Option::Some(config),
            m@.pairing_pin == Option::Some(pairing_pin@),
            m@.display_index == Option::Some(display_index),
    {
        let mut m = Self::empty(MessageType::Hello);
        m.session_id = Some(session_id);
        m.device_name = Some(device_name);
        m.config = Some(config);
        m.pairing_pin = Some(pairing_pin);
        m.display_index = Some(display_index);
        m
    }

    /// A 1 Hz keepalive.
    pub fn keepalive(timestamp_ms: u64) -> (m: SignalingMessage)
        ensures
            m.msg_type == MessageType::Keepalive,
            m@.timestamp_ms == Option::Some(timestamp_ms),
    {
        let mut m = Self::empty(MessageType::Keepalive);
        m.timestamp_ms = Some(timestamp_ms);
        m
    }

    /// A mid-session configuration change.
    pub fn config_update(session_id: String, config: StreamConfig) -> (m: SignalingMessage)
        ensures
            m.msg_type == MessageType::ConfigUpdate,
            m@.session_id == Option::Some(session_id@),
            m@.config == Option::Some(config),
    {
        let mut m = Self::empty(MessageType::ConfigUpdate);
        m.session_id = Some(session_id);
        m.config = Some(config);
        m
    }

    /// The graceful end of a session.
    pub fn stop(session_id: String) -> (m: SignalingMessage)
        ensures
            m.msg_type == MessageType::Stop,
            m@.session_id == Option::Some(session_id@),
    {
        let mut m = Self::empty(MessageType::Stop);
        m.session_id = Some(session_id);
        m
    }
}

/// An event the signaling server reports to the session orchestrator.
#[derive(Debug)]
pub enum SignalingEvent {
    SessionStarted {
        session_id: String,
        device_name: String,
        config: StreamConfig,
        client_addr: String,
    },
    ConfigUpdated { config: StreamConfig },
    SessionStopped { session_id: String },
    ClientDisconnected,
}

/// The mathematical value of a [`SignalingEvent`].
pub enum EventModel {
    Started { session_id: Seq<char>, device_name: Seq<char>, config: StreamConfig, client_addr: Seq<char> },
    ConfigUpdated { config: StreamConfig },
    Stopped { session_id: Seq<char> },
    Disconnected,
}

impl View for SignalingEvent {
    type V = EventModel;

    open spec fn view(&self) -> EventModel {
        match self {
            SignalingEvent::SessionStarted { session_id, device_name, config, client_addr } => EventModel::Started {
                session_id: session_id@,
                device_name: device_name@,
                config: *config,
                client_addr: client_addr@,
            },
            SignalingEvent::ConfigUpdated { config } => EventModel::ConfigUpdated {
                config: *config,
            },
            SignalingEvent::SessionStopped { session_id } => EventModel::Stopped {
                session_id: session_id@,
            },
            SignalingEvent::ClientDisconnected => EventModel::Disconnected,
        }
    }
}

/// What the server does in response to one connection input.
#[derive(Debug)]
pub enum ServerAction {
    /// Write a `hello_ack` back to the client.
    SendHelloAck { session_id: String, accepted: bool, reason: Option<String> },
    /// Report an event on the per-display event channel.
    Emit(SignalingEvent),
    /// Begin forwarding queued input events to this client.
    StartInputForwarder,
    /// Close the TLS connection.
    CloseConnection,
}

/// The mathematical value of a [`ServerAction`].
pub enum ActionModel {
    Ack { session_id: Seq<char>, accepted: bool, reason: Option<Seq<char>> },
    Emit(EventModel),
    StartForwarder,
    Close,
}

impl View for ServerAction {
    type V = ActionModel;

    open spec fn view(&self) -> ActionModel {
        match self {
            ServerAction::SendHelloAck { session_id, accepted, reason } => ActionModel::Ack {
                session_id: session_id@,
                accepted: *accepted,
                reason: match reason {
                    Option::Some(r) => Option::Some(r@),
                    Option::None => Option::None,
                },
            },
            ServerAction::Emit(e) => ActionModel::Emit(e@),
            ServerAction::StartInputForwarder => ActionModel::StartForwarder,
            ServerAction::CloseConnection => ActionModel::Close,
        }
    }
}

/// Per-connection server state: whether a session has started on this
/// connection (the input forwarder runs once), and whether the connection
/// has closed.
#[derive(Debug, Clone, Copy, PartialEq, Eq, Structural)]
pub struct ServerConnState {
    pub session_active: bool,
    pub closed: bool,
}

impl ServerConnState {
    /// The state of a freshly accepted connection.
    pub fn initial() -> (s: ServerConnState)
        ensures
            !s.session_active,
            !s.closed,
    {
        ServerConnState { session_active: false, closed: false }
    }
}

/// One input to the connection state machine.
#[derive(Debug)]
pub enum ConnInput {
    /// A decoded signaling message.
    Message(SignalingMessage),
    /// The peer closed the socket or the read failed.
    SocketClosed,
    /// A frame arrived whose body was not valid JSON.
    MalformedJson,
}

/// The mathematical value of a [`ConnInput`].
pub enum InputModel {
    Message(MsgModel),
    SocketClosed,
    MalformedJson,
}

impl View for ConnInput {
    type V = InputModel;

    open spec fn view(&self) -> InputModel {
        match self {
            ConnInput::Message(m) => InputModel::Message(m@),
            ConnInput::SocketClosed => InputModel::SocketClosed,
            ConnInput::MalformedJson => InputModel::MalformedJson,
        }
    }
}

/// The session id a message names, empty when absent.
pub open spec fn spec_sid_of(m: MsgModel) -> Seq<char> {
    match m.session_id {
        Option::Some(s) => s,
        Option::None => Seq::empty(),
    }
}

/// The PIN a message carries, empty when absent.
pub open spec fn spec_pin_of(m: MsgModel) -> Seq<char> {
    match m.pairing_pin {
        Option::Some(p) => p,
        Option::None => Seq::empty(),
    }
}

/// The device name a message carries, or the peer address when absent.
pub open spec fn spec_name_of(m: MsgModel, peer_addr: Seq<char>) -> Seq<char> {
    match m.device_name {
        Option::Some(n) => n,
        Option::None => peer_addr,
    }
}

/// The configuration a message carries, or the default when absent.
pub open spec fn spec_config_of(m: MsgModel) -> StreamConfig {
    match m.config {
        Option::Some(c) => c,
        Option::None => crate::config::spec_default_stream_config(),
    }
}

/// The connection state machine.  Given the state, one input, the
/// receiver's PIN and the peer address, it yields the next state and the
/// actions the server performs, in order.
pub open spec fn spec_server_step(
    st: ServerConnState,
    input: InputModel,
    pin: Seq<char>,
    peer_addr: Seq<char>,
) -> (ServerConnState, Seq<ActionModel>) {
    if st.closed {
        (st, Seq::empty())
    } else {
        match input {
            InputModel::Message(m) => match m.msg_type {
                MessageType::Hello => {
                    if spec_pin_of(m) == pin {
                        (
                            ServerConnState { session_active: true, closed: false },
                            seq![
                                ActionModel::Ack {
                                    session_id: spec_sid_of(m),
                                    accepted: true,
                                    reason: Option::None,
                                },
                                ActionModel::Emit(
                                    EventModel::Started {
                                        session_id: spec_sid_of(m),
                                        device_name: spec_name_of(m, peer_addr),
                                        config: spec_config_of(m),
                                        client_addr: peer_addr,
                                    },
                                ),
                            ] + if !st.session_active {
                                seq![ActionModel::StartForwarder]
                            } else {
                                Seq::empty()
                            },
                        )
                    } else {
                        (
                            ServerConnState { session_active: st.session_active, closed: true },
                            seq![
                                ActionModel::Ack {
                                    session_id: spec_sid_of(m),
                                    accepted: false,
                                    reason: Option::Some("Invalid pairing PIN"@),
                                },
                                ActionModel::Close,
                            ],
                        )
                    }
                },
                MessageType::ConfigUpdate => {
                    match m.config {
                        Option::Some(c) => (
                            st,
                            seq![ActionModel::Emit(EventModel::ConfigUpdated { config: c })],
                        ),
                        Option::None => (st, Seq::empty()),
                    }
                },
                MessageType::Stop => (
                    ServerConnState { session_active: st.session_active, closed: true },
                    seq![
                        ActionModel::Emit(EventModel::Stopped { session_id: spec_sid_of(m) }),
                        ActionModel::Close,
                    ],
                ),
                _ => (st, Seq::empty()),
            },
            InputModel::SocketClosed => (
                ServerConnState { session_active: st.session_active, closed: true },
                seq![ActionModel::Emit(EventModel::Disconnected), ActionModel::Close],
            ),
            InputModel::MalformedJson => (st, Seq::empty()),
        }
    }
}

/// Run the connection state machine for one input.
pub fn server_step(
    st: ServerConnState,
    input: &ConnInput,
    expected_pin: &String,
    peer_addr: &String,
) -> (r: (ServerConnState, Vec<ServerAction>))
    ensures
        r.0 == spec_server_step(st, input@, expected_pin@, peer_addr@).0,
        r.1@.map_values(|a: ServerAction| a@) == spec_server_step(
            st,
            input@,
            expected_pin@,
            peer_addr@,
        ).1,
{
    let ghost expected = spec_server_step(st, input@, expected_pin@, peer_addr@);
    let mut actions: Vec<ServerAction> = Vec::new();
    if st.closed {
        proof {
            assert(actions@.map_values(|a: ServerAction| a@) =~= expected.1);
        }
        return (st, actions);
    }
    match input {
        ConnInput::Message(msg) => match msg.msg_type {
            MessageType::Hello => {
                let sid = match &msg.session_id {
                    Some(s) => s.clone(),
                    None => String::new(),
                };
                let pin_matches = match &msg.pairing_pin {
                    Some(p) => p.eq(expected_pin),
                    None => expected_pin.as_str().is_empty(),
                };
                proof {
                    assert(sid@ == spec_sid_of(msg@));
                    if msg@.pairing_pin is None && expected_pin@.len() == 0 {
                        assert(spec_pin_of(msg@) =~= expected_pin@);
                    }
                    if msg@.pairing_pin is None && spec_pin_of(msg@) == expected_pin@ {
                        assert(expected_pin@.len() == 0);
                    }
                    assert(pin_matches == (spec_pin_of(msg@) == expected_pin@));
                }
                if pin_matches {
                    let device_name = match &msg.device_name {
                        Some(n) => n.clone(),
                        None => peer_addr.clone(),
                    };
                    let config = match &msg.config {
                        Some(c) => *c,
                        None => StreamConfig::default(),
                    };
                    actions.push(
                        ServerAction::SendHelloAck {
                            session_id: sid.clone(),
                            accepted: true,
                            reason: None,
                        },
                    );
                    actions.push(
                        ServerAction::Emit(
                            SignalingEvent::SessionStarted {
                                session_id: sid,
                                device_name,
                                config,
                                client_addr: peer_addr.clone(),
                            },
                        ),
                    );
                    if !st.session_active {
                        actions.push(ServerAction::StartInputForwarder);
                    }
                    let next = ServerConnState { session_active: true, closed: false };
                    proof {
                        assert(actions@.map_values(|a: ServerAction| a@) =~= expected.1);
                    }
                    (next, actions)
                } else {
                    let reason = String::from_str("Invalid pairing PIN");
                    actions.push(
                        ServerAction::SendHelloAck {
                            session_id: sid,
                            accepted: false,
                            reason: Some(reason),
                        },
                    );
                    actions.push(ServerAction::CloseConnection);
                    let next = ServerConnState {
                        session_active: st.session_active,
                        closed: true,
                    };
                    proof {
                        assert(actions@.map_values(|a: ServerAction| a@) =~= expected.1);
                    }
                    (next, actions)
                }
            },
            MessageType::ConfigUpdate => {
                match &msg.config {
                    Some(c) => {
                        actions.push(
                            ServerAction::Emit(SignalingEvent::ConfigUpdated { config: *c }),
                        );
                    },
                    None => {},
                }
                proof {
                    assert(actions@.map_values(|a: ServerAction| a@) =~= expected.1);
                }
                (st, actions)
            },
            MessageType::Stop => {
                let sid = match &msg.session_id {
                    Some(s) => s.clone(),
                    None => String::new(),
                };
                actions.push(
                    ServerAction::Emit(SignalingEvent::SessionStopped { session_id: sid }),
                );
                actions.push(ServerAction::CloseConnection);
                let next = ServerConnState { session_active: st.session_active, closed: true };
                proof {
                    assert(actions@.map_values(|a: ServerAction| a@) =~= expected.1);
                }
                (next, actions)
            },
            _ => {
                proof {
                    assert(actions@.map_values(|a: ServerAction| a@) =~= expected.1);
                }
                (st, actions)
            },
        },
        ConnInput::SocketClosed => {
            actions.push(ServerAction::Emit(SignalingEvent::ClientDisconnected));
            actions.push(ServerAction::CloseConnection);
            let next = ServerConnState { session_active: st.session_active, closed: true };
            proof {
                assert(actions@.map_values(|a: ServerAction| a@) =~= expected.1);
            }
            (next, actions)
        },
        ConnInput::MalformedJson => {
            proof {
                assert(actions@.map_values(|a: ServerAction| a@) =~= expected.1);
            }
            (st, actions)
        },
    }
}


/// Law: a `hello` whose PIN differs from the receiver's PIN is answered
/// with a rejecting `hello_ack` giving the reason, the connection closes,
/// and no session start is emitted.
pub proof fn lemma_wrong_pin_rejected(
    st: ServerConnState,
    m: MsgModel,
    pin: Seq<char>,
    peer_addr: Seq<char>,
)
    requires
        !st.closed,
        m.msg_type == MessageType::Hello,
        spec_pin_of(m) != pin,
    ensures
        ({
            let r = spec_server_step(st, InputModel::Message(m), pin, peer_addr);
            &&& r.0.closed
            &&& r.1.len() == 2
            &&& r.1[0] == (ActionModel::Ack {
                session_id: spec_sid_of(m),
                accepted: false,
                reason: Option::Some("Invalid pairing PIN"@),
            })
            &&& r.1[1] == ActionModel::Close
            &&& forall|i: int|
                0 <= i < r.1.len() ==> !(#[trigger] r.1[i] matches ActionModel::Emit(
                    EventModel::Started { .. },
                ))
        }),
{
}

/// Fold the connection state machine over a sequence of inputs, collecting
/// every action in order.
pub open spec fn spec_server_run(
    st: ServerConnState,
    inputs: Seq<InputModel>,
    pin: Seq<char>,
    peer_addr: Seq<char>,
) -> (ServerConnState, Seq<ActionModel>)
    decreases inputs.len(),
{
    if inputs.len() == 0 {
        (st, Seq::empty())
    } else {
        let prior = spec_server_run(st, inputs.drop_last(), pin, peer_addr);
        let step = spec_server_step(prior.0, inputs.last(), pin, peer_addr);
        (step.0, prior.1 + step.1)
    }
}

/// An action that reports the start of session `sid`.
pub open spec fn spec_is_started_emit(a: ActionModel, sid: Seq<char>) -> bool {
    a matches ActionModel::Emit(EventModel::Started { session_id, .. }) && session_id == sid
}

/// An action that reports the stop of session `sid`.
pub open spec fn spec_is_stopped_emit(a: ActionModel, sid: Seq<char>) -> bool {
    a matches ActionModel::Emit(EventModel::Stopped { session_id }) && session_id == sid
}

/// A `hello` for session `sid` carrying the right PIN.
pub open spec fn spec_is_matched_hello(inp: InputModel, pin: Seq<char>, sid: Seq<char>) -> bool {
    inp matches InputModel::Message(m) && m.msg_type == MessageType::Hello && spec_pin_of(m)
        == pin && spec_sid_of(m) == sid
}

/// A `stop` naming session `sid`.
pub open spec fn spec_is_stop_msg(inp: InputModel, sid: Seq<char>) -> bool {
    inp matches InputModel::Message(m) && m.msg_type == MessageType::Stop && spec_sid_of(m) == sid
}

/// The machine is still open before each input is processed.
pub open spec fn spec_open_run(
    st: ServerConnState,
    inputs: Seq<InputModel>,
    pin: Seq<char>,
    peer_addr: Seq<char>,
) -> bool {
    forall|k: int|
        0 <= k < inputs.len() ==> !spec_server_run(st, #[trigger] inputs.take(k), pin, peer_addr).0.closed
}

/// The action trace of a prefix of the inputs is a prefix of the full
/// action trace.
proof fn lemma_run_prefix(
    st: ServerConnState,
    inputs: Seq<InputModel>,
    pin: Seq<char>,
    peer_addr: Seq<char>,
    k: int,
)
    requires
        0 <= k <= inputs.len(),
    ensures
        spec_server_run(st, inputs.take(k), pin, peer_addr).1.len() <= spec_server_run(
            st,
            inputs,
            pin,
            peer_addr,
        ).1.len(),
        forall|i: int|
            0 <= i < spec_server_run(st, inputs.take(k), pin, peer_addr).1.len()
                ==> #[trigger] spec_server_run(st, inputs, pin, peer_addr).1[i]
                == spec_server_run(st, inputs.take(k), pin, peer_addr).1[i],
    decreases inputs.len() - k,
{
    if k == inputs.len() {
        assert(inputs.take(k) =~= inputs);
    } else {
        lemma_run_prefix(st, inputs, pin, peer_addr, k + 1);
        let cur = inputs.take(k + 1);
        assert(cur.drop_last() =~= inputs.take(k));
        assert(cur.last() == inputs[k]);
    }
}

/// A matched `hello` processed while the connection is open puts a session
/// start on the action trace.
proof fn lemma_hello_emits_started(
    st: ServerConnState,
    inputs: Seq<InputModel>,
    pin: Seq<char>,
    peer_addr: Seq<char>,
    sid: Seq<char>,
    k: int,
)
    requires
        0 <= k < inputs.len(),
        spec_is_matched_hello(inputs[k], pin, sid),
        !spec_server_run(st, inputs.take(k), pin, peer_addr).0.closed,
    ensures
        ({
            let upto = spec_server_run(st, inputs.take(k + 1), pin, peer_addr).1;
            exists|i: int| 0 <= i < upto.len() && spec_is_started_emit(#[trigger] upto[i], sid)
        }),
{
    let cur = inputs.take(k + 1);
    assert(cur.drop_last() =~= inputs.take(k));
    assert(cur.last() == inputs[k]);
    let prior = spec_server_run(st, inputs.take(k), pin, peer_addr);
    let step = spec_server_step(prior.0, inputs[k], pin, peer_addr);
    let upto = spec_server_run(st, cur, pin, peer_addr).1;
    assert(upto == prior.1 + step.1);
    let i = prior.1.len() as int + 1;
    assert(spec_is_started_emit(step.1[1], sid));
    assert(upto[i] == step.1[1]);
}

/// Law: on one signaling connection, a session-stopped event for a session
/// id is always preceded by the session-started event for that id, provided
/// every `stop` in the input follows an accepted `hello` for the same id.
/// (A `stop` naming a session that never said hello would be reported
/// stopped without a start: the machine forwards the id it was given.)
pub proof fn lemma_started_before_stopped(
    st: ServerConnState,
    inputs: Seq<InputModel>,
    pin: Seq<char>,
    peer_addr: Seq<char>,
    sid: Seq<char>,
)
    requires
        spec_open_run(st, inputs, pin, peer_addr),
        forall|k: int|
            0 <= k < inputs.len() && spec_is_stop_msg(#[trigger] inputs[k], sid) ==> exists|j: int|
                0 <= j < k && spec_is_matched_hello(#[trigger] inputs[j], pin, sid),
    ensures
        ({
            let trace = spec_server_run(st, inputs, pin, peer_addr).1;
            forall|j: int|
                0 <= j < trace.len() && spec_is_stopped_emit(#[trigger] trace[j], sid)
                    ==> exists|i: int|
                    0 <= i < j && spec_is_started_emit(#[trigger] trace[i], sid)
        }),
    decreases inputs.len(),
{
    if inputs.len() == 0 {
    } else {
        let pre = inputs.drop_last();
        assert forall|k: int| 0 <= k < pre.len() implies !spec_server_run(
            st,
            #[trigger] pre.take(k),
            pin,
            peer_addr,
        ).0.closed by {
            assert(pre.take(k) =~= inputs.take(k));
        }
        assert forall|k: int|
            0 <= k < pre.len() && spec_is_stop_msg(#[trigger] pre[k], sid) implies exists|j: int|
            0 <= j < k && spec_is_matched_hello(#[trigger] pre[j], pin, sid) by {
            assert(inputs[k] == pre[k]);
            let j = choose|j: int|
                0 <= j < k && spec_is_matched_hello(#[trigger] inputs[j], pin, sid);
            assert(pre[j] == inputs[j]);
            assert(spec_is_matched_hello(pre[j], pin, sid));
        }
        lemma_started_before_stopped(st, pre, pin, peer_addr, sid);
        let prior = spec_server_run(st, pre, pin, peer_addr);
        let step = spec_server_step(prior.0, inputs.last(), pin, peer_addr);
        let trace = spec_server_run(st, inputs, pin, peer_addr).1;
        assert(trace == prior.1 + step.1);
        assert forall|j: int|
            0 <= j < trace.len() && spec_is_stopped_emit(#[trigger] trace[j], sid) implies exists|
            i: int,
        |
            0 <= i < j && spec_is_started_emit(#[trigger] trace[i], sid) by {
            if j < prior.1.len() {
                assert(trace[j] == prior.1[j]);
                let i = choose|i: int|
                    0 <= i < j && spec_is_started_emit(#[trigger] prior.1[i], sid);
                assert(trace[i] == prior.1[i]);
            } else {
                // The stop event came from the final input, which must be a
                // stop message for `sid`; its hello lies in the prefix.
                assert(spec_is_stopped_emit(step.1[j - prior.1.len()], sid));
                assert(!prior.0.closed) by {
                    assert(inputs.take(inputs.len() - 1) =~= pre);
                }
                assert(spec_is_stop_msg(inputs.last(), sid)) by {
                    if !spec_is_stop_msg(inputs.last(), sid) {
                        lemma_step_stopped_only_for_stop(
                            prior.0,
                            inputs.last(),
                            pin,
                            peer_addr,
                            sid,
                            j - prior.1.len(),
                        );
                    }
                }
                assert(inputs[inputs.len() - 1] == inputs.last());
                let h = choose|h: int|
                    0 <= h < inputs.len() - 1 && spec_is_matched_hello(
                        #[trigger] inputs[h],
                        pin,
                        sid,
                    );
                assert(!spec_server_run(st, inputs.take(h), pin, peer_addr).0.closed);
                lemma_hello_emits_started(st, inputs, pin, peer_addr, sid, h);
                let upto = spec_server_run(st, inputs.take(h + 1), pin, peer_addr).1;
                let i0 = choose|i: int|
                    0 <= i < upto.len() && spec_is_started_emit(#[trigger] upto[i], sid);
                lemma_run_prefix(st, pre, pin, peer_addr, h + 1);
                assert(pre.take(h + 1) =~= inputs.take(h + 1));
                assert(prior.1[i0] == upto[i0]);
                assert(trace[i0] == prior.1[i0]);
                assert(i0 < upto.len());
                assert(upto.len() <= prior.1.len());
                assert(spec_is_started_emit(trace[i0], sid));
            }
        }
    }
}

/// A step emits a stopped event for `sid` only when its input is a `stop`
/// message naming `sid`.
proof fn lemma_step_stopped_only_for_stop(
    st: ServerConnState,
    inp: InputModel,
    pin: Seq<char>,
    peer_addr: Seq<char>,
    sid: Seq<char>,
    j: int,
)
    requires
        !spec_is_stop_msg(inp, sid),
        0 <= j < spec_server_step(st, inp, pin, peer_addr).1.len(),
    ensures
        !spec_is_stopped_emit(spec_server_step(st, inp, pin, peer_addr).1[j], sid),
{
    let acts = spec_server_step(st, inp, pin, peer_addr).1;
    match inp {
        InputModel::Message(m) => {
            match m.msg_type {
                MessageType::Hello => {
                    if spec_pin_of(m) == pin {
                        if !st.session_active {
                            assert(acts[2] == ActionModel::StartForwarder);
                        }
                    }
                },
                _ => {},
            }
        },
        _ => {},
    }
}

} // verus!
