//! The stream driver: the life of one connection as a state machine.
//!
//! The driver decides; the host acts. The host performs what the driver
//! directs (send the request, check liveness, await the next chunk), tells
//! the driver what it observed, and delivers the events that the driver
//! hands back, in their order.

use crate::assembler::{messages_of_lines, pending_after_lines, EventAssembler};
use crate::event::{EventView, SseEvent};
use crate::framer::{complete_lines, remainder, unterminated, LineFramer};
use crate::registry::ClientState;
use crate::status::{is_success_code, status_display, HttpStatus};
use crate::text::{decimal, decimal_string, decode_chunk, chunk_text};
use vstd::prelude::*;

verus! {

/// Seconds allowed for establishing the connection.
pub const CONNECT_TIMEOUT_SECS: u64 = 15;

/// Seconds between keepalive probes on the transport.
pub const KEEPALIVE_SECS: u64 = 30;

/// Seconds that may pass between two chunks before the connection is
/// declared dead.
pub const IDLE_READ_TIMEOUT_SECS: u64 = 90;

/// Where a connection stands.
#[derive(Clone, Copy, Debug, PartialEq, Eq, Structural)]
pub enum Phase {
    /// Nothing has been asked of the driver yet.
    Idle,
    /// The request is on its way; no response has been seen.
    Requesting,
    /// The response is being read.
    Streaming,
    /// The connection is over.
    Terminated,
}

/// What the host is to do next.
#[derive(Debug, PartialEq, Eq)]
pub enum Directive {
    /// Begin the connection.
    Begin,
    /// Send the request and report the handshake.
    Send,
    /// Report whether the connection is still the current one.
    CheckLiveness,
    /// Await the next chunk of the body, for at most the idle-read
    /// timeout, and report what came.
    AwaitChunk,
    /// Return from the connect call with this result.
    Finish(Result<(), String>),
}

/// What a `Directive` stands for.
pub enum DirectiveView {
    Begin,
    Send,
    CheckLiveness,
    AwaitChunk,
    Finish { failure: Option<Seq<char>> },
}

impl View for Directive {
    type V = DirectiveView;

    open spec fn view(&self) -> DirectiveView {
        match *self {
            Directive::Begin => DirectiveView::Begin,
            Directive::Send => DirectiveView::Send,
            Directive::CheckLiveness => DirectiveView::CheckLiveness,
            Directive::AwaitChunk => DirectiveView::AwaitChunk,
            Directive::Finish(Ok(_)) => DirectiveView::Finish { failure: None },
            Directive::Finish(Err(message)) => DirectiveView::Finish { failure: Some(message@) },
        }
    }
}

/// What the host observed.
#[derive(Debug, PartialEq, Eq)]
pub enum DriverEvent {
    /// The HTTP client could not be built.
    ClientFailed { detail: String },
    /// The request could not be sent, or no response came.
    SendFailed { detail: String },
    /// A response arrived with this status.
    Responded { status: HttpStatus },
    /// The liveness check was made.
    Liveness { current: bool },
    /// A chunk of the body arrived.
    Chunk { bytes: Vec<u8> },
    /// Reading the body failed.
    ReadFailed { detail: String },
    /// The body ended.
    StreamEnded,
    /// No chunk came within the idle-read timeout.
    IdleTimeout,
}

/// What a `DriverEvent` stands for. A chunk stands for its text.
pub enum Signal {
    ClientFailed { detail: Seq<char> },
    SendFailed { detail: Seq<char> },
    Responded { status: u16 },
    Liveness { current: bool },
    Text { text: Seq<char> },
    ReadFailed { detail: Seq<char> },
    StreamEnded,
    IdleTimeout,
}

impl View for DriverEvent {
    type V = Signal;

    open spec fn view(&self) -> Signal {
        match *self {
            DriverEvent::ClientFailed { detail } => Signal::ClientFailed { detail: detail@ },
            DriverEvent::SendFailed { detail } => Signal::SendFailed { detail: detail@ },
            DriverEvent::Responded { status } => Signal::Responded { status: status@ },
            DriverEvent::Liveness { current } => Signal::Liveness { current },
            DriverEvent::Chunk { bytes } => Signal::Text { text: chunk_text(bytes@) },
            DriverEvent::ReadFailed { detail } => Signal::ReadFailed { detail: detail@ },
            DriverEvent::StreamEnded => Signal::StreamEnded,
            DriverEvent::IdleTimeout => Signal::IdleTimeout,
        }
    }
}

/// What a `StreamDriver` stands for.
pub struct DriverState {
    /// Where the connection stands.
    pub phase: Phase,
    /// While streaming: liveness was confirmed and a chunk is awaited.
    pub checked: bool,
    /// The identity of the connection; 0 before it has begun.
    pub conn_id: nat,
    /// What the line framer keeps.
    pub buffer: Seq<char>,
    /// What the event assembler has accumulated.
    pub pending: Seq<char>,
    /// The failure that the connect call returns; `None` where it
    /// returns success or is not over.
    pub failure: Option<Seq<char>>,
}

/// A state and the events that reaching it produced.
pub struct Reaction {
    pub state: DriverState,
    pub events: Seq<EventView>,
}

/// The failure of building the HTTP client.
pub open spec fn client_failed(detail: Seq<char>) -> Seq<char> {
    "Failed to create HTTP client: "@ + detail
}

/// The failure of sending the request.
pub open spec fn connection_failed(detail: Seq<char>) -> Seq<char> {
    "SSE connection failed: "@ + detail
}

/// The failure that a response without a success status is.
pub open spec fn server_returned(status: u16) -> Seq<char> {
    "SSE server returned "@ + status_display(status)
}

/// The failure of reading the body.
pub open spec fn stream_error(detail: Seq<char>) -> Seq<char> {
    "SSE stream error: "@ + detail
}

/// The failure that a silent connection is; it names the timeout.
pub open spec fn idle_timeout_message() -> Seq<char> {
    "SSE read timeout ("@ + decimal(IDLE_READ_TIMEOUT_SECS as nat) + "s without data)"@
}

/// The reason given when the client itself ended the connection.
pub open spec fn cancelled_reason() -> Seq<char> {
    "Disconnected by client"@
}

/// The reason given when the server ended the body.
pub open spec fn ended_reason() -> Seq<char> {
    "Stream ended"@
}

/// One `Message` event for each of `messages`, in order.
pub open spec fn message_events(messages: Seq<Seq<char>>) -> Seq<EventView> {
    Seq::new(messages.len(), |i: int| EventView::Message { raw: messages[i] })
}

/// What is flushed when the body ends: the accumulated payload as one last
/// message, if there is any.
pub open spec fn flushed(pending: Seq<char>) -> Seq<EventView> {
    if pending.len() > 0 {
        seq![EventView::Message { raw: pending }]
    } else {
        Seq::empty()
    }
}

impl DriverState {
    /// The state of a driver of which nothing was asked yet.
    pub open spec fn idle() -> DriverState {
        DriverState {
            phase: Phase::Idle,
            checked: false,
            conn_id: 0,
            buffer: Seq::empty(),
            pending: Seq::empty(),
            failure: None,
        }
    }

    /// The states that a driver can be in.
    pub open spec fn wf(self) -> bool {
        &&& unterminated(self.buffer)
        &&& self.checked ==> self.phase == Phase::Streaming
        &&& self.phase != Phase::Terminated ==> self.failure is None
        &&& self.phase != Phase::Streaming ==> self.buffer.len() == 0 && self.pending.len() == 0
        &&& self.phase == Phase::Idle <==> self.conn_id == 0
    }

    /// The state after the connection has begun under the identity `id`.
    pub open spec fn begun(self, id: nat) -> DriverState {
        DriverState { phase: Phase::Requesting, conn_id: id, ..self }
    }

    /// The state of the same connection once it is over.
    pub open spec fn terminated(self, failure: Option<Seq<char>>) -> DriverState {
        DriverState {
            phase: Phase::Terminated,
            checked: false,
            conn_id: self.conn_id,
            buffer: Seq::empty(),
            pending: Seq::empty(),
            failure,
        }
    }

    /// The connection fails with `message`, and says so in one `Error`.
    pub open spec fn fail(self, message: Seq<char>) -> Reaction {
        Reaction {
            state: self.terminated(Some(message)),
            events: seq![EventView::Error { message }],
        }
    }

    /// Nothing happens.
    pub open spec fn stay(self) -> Reaction {
        Reaction { state: self, events: Seq::empty() }
    }

    /// What a signal does while the request is on its way.
    pub open spec fn react_requesting(self, signal: Signal) -> Reaction {
        match signal {
            Signal::ClientFailed { detail } => Reaction {
                state: self.terminated(Some(client_failed(detail))),
                events: Seq::empty(),
            },
            Signal::SendFailed { detail } => self.fail(connection_failed(detail)),
            Signal::Responded { status } => if is_success_code(status) {
                Reaction {
                    state: DriverState { phase: Phase::Streaming, checked: false, ..self },
                    events: seq![EventView::Connected],
                }
            } else {
                self.fail(server_returned(status))
            },
            _ => self.stay(),
        }
    }

    /// What a signal does at the top of the read loop, where only the
    /// liveness check counts.
    pub open spec fn react_unchecked(self, signal: Signal) -> Reaction {
        match signal {
            Signal::Liveness { current } => if current {
                Reaction { state: DriverState { checked: true, ..self }, events: Seq::empty() }
            } else {
                Reaction {
                    state: self.terminated(None),
                    events: seq![EventView::Disconnected { reason: cancelled_reason() }],
                }
            },
            _ => self.stay(),
        }
    }

    /// What the text of a chunk does: the lines that it completes are fed
    /// to the assembler, and each message that they complete is emitted.
    pub open spec fn absorb(self, text: Seq<char>) -> Reaction {
        let lines = complete_lines(self.buffer + text);
        Reaction {
            state: DriverState {
                checked: false,
                buffer: remainder(self.buffer + text),
                pending: pending_after_lines(self.pending, lines),
                ..self
            },
            events: message_events(messages_of_lines(self.pending, lines)),
        }
    }

    /// What a signal does while a chunk is awaited.
    pub open spec fn react_awaiting(self, signal: Signal) -> Reaction {
        match signal {
            Signal::Text { text } => self.absorb(text),
            Signal::ReadFailed { detail } => self.fail(stream_error(detail)),
            Signal::StreamEnded => Reaction {
                state: self.terminated(None),
                events: flushed(self.pending).push(
                    EventView::Disconnected { reason: ended_reason() },
                ),
            },
            Signal::IdleTimeout => self.fail(idle_timeout_message()),
            _ => self.stay(),
        }
    }

    /// What a signal does: the next state and the events to deliver. A
    /// signal that the phase does not wait for does nothing.
    pub open spec fn react(self, signal: Signal) -> Reaction {
        match self.phase {
            Phase::Idle => self.stay(),
            Phase::Requesting => self.react_requesting(signal),
            Phase::Streaming => if self.checked {
                self.react_awaiting(signal)
            } else {
                self.react_unchecked(signal)
            },
            Phase::Terminated => self.stay(),
        }
    }

    /// What the host is to do in this state.
    pub open spec fn directive(self) -> DirectiveView {
        match self.phase {
            Phase::Idle => DirectiveView::Begin,
            Phase::Requesting => DirectiveView::Send,
            Phase::Streaming => if self.checked {
                DirectiveView::AwaitChunk
            } else {
                DirectiveView::CheckLiveness
            },
            Phase::Terminated => DirectiveView::Finish { failure: self.failure },
        }
    }

    /// The state after `signals`, taken in order.
    pub open spec fn after_all(self, signals: Seq<Signal>) -> DriverState
        decreases signals.len(),
    {
        if signals.len() == 0 {
            self
        } else {
            self.after_all(signals.drop_last()).react(signals.last()).state
        }
    }

    /// All the events that `signals`, taken in order, produce.
    pub open spec fn events_of(self, signals: Seq<Signal>) -> Seq<EventView>
        decreases signals.len(),
    {
        if signals.len() == 0 {
            Seq::empty()
        } else {
            self.events_of(signals.drop_last()) + self.after_all(signals.drop_last()).react(
                signals.last(),
            ).events
        }
    }
}

/// One header of the request.
#[derive(Debug, PartialEq, Eq)]
pub struct Header {
    pub name: String,
    pub value: String,
}

/// The request that the host is to send: a GET of `url` with these
/// headers, on a transport with these settings.
#[derive(Debug, PartialEq, Eq)]
pub struct RequestPlan {
    pub url: String,
    /// Seconds allowed for establishing the connection.
    pub connect_timeout_secs: u64,
    /// Seconds between keepalive probes.
    pub keepalive_secs: u64,
    /// Seconds allowed for the whole response; `None` for no limit.
    pub response_timeout_secs: Option<u64>,
    pub headers: Vec<Header>,
}

/// What a `RequestPlan` stands for; a header is its name and its value.
pub struct PlanView {
    pub url: Seq<char>,
    pub connect_timeout_secs: u64,
    pub keepalive_secs: u64,
    pub response_timeout_secs: Option<u64>,
    pub headers: Seq<(Seq<char>, Seq<char>)>,
}

impl View for RequestPlan {
    type V = PlanView;

    open spec fn view(&self) -> PlanView {
        PlanView {
            url: self.url@,
            connect_timeout_secs: self.connect_timeout_secs,
            keepalive_secs: self.keepalive_secs,
            response_timeout_secs: self.response_timeout_secs,
            headers: Seq::new(
                self.headers@.len(),
                |i: int| (self.headers@[i].name@, self.headers@[i].value@),
            ),
        }
    }
}

/// The text of an optional string.
pub open spec fn text_of(text: Option<String>) -> Option<Seq<char>> {
    match text {
        Some(held) => Some(held@),
        None => None,
    }
}

/// The request for `url`: the fixed timeouts, no limit on the whole
/// response, which is long-lived by design, and the credential, where one
/// is supplied, as the `Authorization` header, unchanged.
pub open spec fn request_for(url: Seq<char>, credential: Option<Seq<char>>) -> PlanView {
    PlanView {
        url,
        connect_timeout_secs: CONNECT_TIMEOUT_SECS,
        keepalive_secs: KEEPALIVE_SECS,
        response_timeout_secs: None,
        headers: match credential {
            Some(value) => seq![("Authorization"@, value)],
            None => Seq::empty(),
        },
    }
}

/// What the driver hands back after each step.
#[derive(Debug, PartialEq, Eq)]
pub struct Step {
    /// The events to deliver to the consumer, in this order.
    pub emit: Vec<SseEvent>,
    /// What the host is to do next.
    pub next: Directive,
}

/// `prefix` followed by `detail`.
fn prefixed(prefix: &str, detail: &str) -> (text: String)
    ensures
        text@ == prefix@ + detail@,
{
    let mut text = String::from_str(prefix);
    text.append(detail);
    text
}

/// The events that deliver `messages`, one `Message` each.
fn events_for(messages: &Vec<String>) -> (events: Vec<SseEvent>)
    ensures
        events.deep_view() == message_events(messages.deep_view()),
{
    let mut events: Vec<SseEvent> = Vec::new();
    let mut i: usize = 0;
    while i < messages.len()
        invariant
            i <= messages.len(),
            events.deep_view() == message_events(messages.deep_view().take(i as int)),
        decreases messages.len() - i,
    {
        let ghost before = events.deep_view();
        let raw = messages[i].clone();
        events.push(SseEvent::Message { raw });
        assert(events.deep_view() =~= before.push(EventView::Message { raw: messages[i as int]@ }));
        assert(events.deep_view() =~= message_events(messages.deep_view().take(i + 1)));
        i += 1;
    }
    assert(messages.deep_view().take(messages.len() as int) =~= messages.deep_view());
    events
}

/// Drives one connection from the request to its end.
pub struct StreamDriver {
    phase: Phase,
    checked: bool,
    conn_id: u64,
    framer: LineFramer,
    assembler: EventAssembler,
    failure: Option<String>,
}

impl View for StreamDriver {
    type V = DriverState;

    closed spec fn view(&self) -> DriverState {
        DriverState {
            phase: self.phase,
            checked: self.checked,
            conn_id: self.conn_id as nat,
            buffer: self.framer@,
            pending: self.assembler@,
            failure: text_of(self.failure),
        }
    }
}

impl StreamDriver {
    /// A driver of which nothing was asked yet.
    pub fn new() -> (driver: Self)
        ensures
            driver@ == DriverState::idle(),
    {
        StreamDriver {
            phase: Phase::Idle,
            checked: false,
            conn_id: 0,
            framer: LineFramer::new(),
            assembler: EventAssembler::new(),
            failure: None,
        }
    }

    /// Where the connection stands.
    pub fn phase(&self) -> (phase: Phase)
        ensures
            phase == self@.phase,
    {
        self.phase
    }

    /// The identity of the connection; 0 before it has begun.
    pub fn conn_id(&self) -> (id: u64)
        ensures
            id == self@.conn_id,
    {
        self.conn_id
    }

    /// What the host is to do next.
    pub fn directive(&self) -> (next: Directive)
        ensures
            next@ == self@.directive(),
    {
        match self.phase {
            Phase::Idle => Directive::Begin,
            Phase::Requesting => Directive::Send,
            Phase::Streaming => if self.checked {
                Directive::AwaitChunk
            } else {
                Directive::CheckLiveness
            },
            Phase::Terminated => match &self.failure {
                Some(message) => Directive::Finish(Err(message.clone())),
                None => Directive::Finish(Ok(())),
            },
        }
    }

    /// Begins the connection: registers a new identity, which supersedes
    /// whatever connection was active, and plans the request. On a driver
    /// that is not idle it does nothing and returns `None`. The registry
    /// must have an identity left to issue; `ClientState::can_issue` tells.
    pub fn begin(
        &mut self,
        registry: &mut ClientState,
        url: String,
        credential: Option<String>,
    ) -> (plan: Option<RequestPlan>)
        requires
            old(self)@.phase == Phase::Idle ==> old(registry)@.last_issued < u64::MAX,
        ensures
            old(self)@.phase == Phase::Idle ==> {
                &&& final(registry)@ == old(registry)@.begun()
                &&& final(self)@ == old(self)@.begun(final(registry)@.active)
                &&& plan matches Some(request)
                &&& request@ == request_for(url@, text_of(credential))
            },
            old(self)@.phase != Phase::Idle ==> {
                &&& final(registry)@ == old(registry)@
                &&& final(self)@ == old(self)@
                &&& plan is None
            },
    {
        if self.phase != Phase::Idle {
            return None;
        }
        self.conn_id = registry.begin_connection();
        self.phase = Phase::Requesting;
        let mut headers: Vec<Header> = Vec::new();
        match credential {
            Some(value) => {
                headers.push(Header { name: String::from_str("Authorization"), value });
            },
            None => {},
        }
        let request = RequestPlan {
            url,
            connect_timeout_secs: CONNECT_TIMEOUT_SECS,
            keepalive_secs: KEEPALIVE_SECS,
            response_timeout_secs: None,
            headers,
        };
        assert(request@.headers =~= request_for(url@, text_of(credential)).headers);
        Some(request)
    }

    /// Ends the connection.
    fn terminate(&mut self, failure: Option<String>)
        ensures
            final(self)@ == old(self)@.terminated(text_of(failure)),
    {
        self.phase = Phase::Terminated;
        self.checked = false;
        self.framer.clear();
        let _ = self.assembler.take();
        self.failure = failure;
    }

    /// Ends the connection with a failure, and reports it in one `Error`.
    fn fail(&mut self, message: String) -> (emit: Vec<SseEvent>)
        ensures
            final(self)@ == old(self)@.fail(message@).state,
            emit.deep_view() == old(self)@.fail(message@).events,
    {
        let mut emit: Vec<SseEvent> = Vec::new();
        emit.push(SseEvent::Error { message: message.clone() });
        assert(emit.deep_view() =~= seq![EventView::Error { message: message@ }]);
        self.terminate(Some(message));
        emit
    }

    /// Takes the text of a chunk while one is awaited: frames it, feeds
    /// the lines to the assembler and returns the messages.
    fn absorb(&mut self, text: &str) -> (emit: Vec<SseEvent>)
        ensures
            final(self)@ == old(self)@.absorb(text@).state,
            emit.deep_view() == old(self)@.absorb(text@).events,
    {
        let lines = self.framer.push_text(text);
        let messages = self.assembler.feed_all(&lines);
        self.checked = false;
        events_for(&messages)
    }

    /// The events of one reaction; the state moves on.
    fn handle(&mut self, event: DriverEvent) -> (emit: Vec<SseEvent>)
        ensures
            final(self)@ == old(self)@.react(event@).state,
            emit.deep_view() == old(self)@.react(event@).events,
    {
        match self.phase {
            Phase::Idle => Vec::new(),
            Phase::Terminated => Vec::new(),
            Phase::Requesting => match event {
                DriverEvent::ClientFailed { detail } => {
                    self.terminate(
                        Some(prefixed("Failed to create HTTP client: ", detail.as_str())),
                    );
                    Vec::new()
                },
                DriverEvent::SendFailed { detail } => self.fail(
                    prefixed("SSE connection failed: ", detail.as_str()),
                ),
                DriverEvent::Responded { status } => {
                    if status.is_success() {
                        self.phase = Phase::Streaming;
                        self.checked = false;
                        let mut emit: Vec<SseEvent> = Vec::new();
                        emit.push(SseEvent::Connected);
                        assert(emit.deep_view() =~= seq![EventView::Connected]);
                        emit
                    } else {
                        let shown = status.describe();
                        self.fail(prefixed("SSE server returned ", shown.as_str()))
                    }
                },
                _ => Vec::new(),
            },
            Phase::Streaming => if !self.checked {
                match event {
                    DriverEvent::Liveness { current } => {
                        if current {
                            self.checked = true;
                            Vec::new()
                        } else {
                            self.terminate(None);
                            let mut emit: Vec<SseEvent> = Vec::new();
                            emit.push(
                                SseEvent::Disconnected {
                                    reason: String::from_str("Disconnected by client"),
                                },
                            );
                            assert(emit.deep_view() =~= seq![
                                EventView::Disconnected { reason: cancelled_reason() },
                            ]);
                            emit
                        }
                    },
                    _ => Vec::new(),
                }
            } else {
                match event {
                    DriverEvent::Chunk { bytes } => {
                        let text = decode_chunk(bytes.as_slice());
                        self.absorb(text.as_str())
                    },
                    DriverEvent::ReadFailed { detail } => self.fail(
                        prefixed("SSE stream error: ", detail.as_str()),
                    ),
                    DriverEvent::StreamEnded => {
                        let mut emit: Vec<SseEvent> = Vec::new();
                        if !self.assembler.is_empty() {
                            emit.push(SseEvent::Message { raw: self.assembler.take() });
                        }
                        let ghost flush = emit.deep_view();
                        assert(flush =~= flushed(old(self)@.pending));
                        emit.push(
                            SseEvent::Disconnected { reason: String::from_str("Stream ended") },
                        );
                        assert(emit.deep_view() =~= flush.push(
                            EventView::Disconnected { reason: ended_reason() },
                        ));
                        self.terminate(None);
                        emit
                    },
                    DriverEvent::IdleTimeout => {
                        let seconds = decimal_string(IDLE_READ_TIMEOUT_SECS);
                        let mut message = prefixed("SSE read timeout (", seconds.as_str());
                        message.append("s without data)");
                        self.fail(message)
                    },
                    _ => Vec::new(),
                }
            },
        }
    }

    /// Takes what the host observed and returns the events to deliver and
    /// what to do next. An observation that the phase does not wait for
    /// changes nothing and delivers nothing.
    pub fn step(&mut self, event: DriverEvent) -> (step: Step)
        ensures
            final(self)@ == old(self)@.react(event@).state,
            step.emit.deep_view() == old(self)@.react(event@).events,
            step.next@ == final(self)@.directive(),
    {
        let emit = self.handle(event);
        Step { emit, next: self.directive() }
    }

    /// Takes the text of a chunk, as `step` takes the chunk itself.
    pub fn on_text(&mut self, text: &str) -> (step: Step)
        ensures
            final(self)@ == old(self)@.react(Signal::Text { text: text@ }).state,
            step.emit.deep_view() == old(self)@.react(Signal::Text { text: text@ }).events,
            step.next@ == final(self)@.directive(),
    {
        let emit = if self.phase == Phase::Streaming && self.checked {
            self.absorb(text)
        } else {
            Vec::new()
        };
        Step { emit, next: self.directive() }
    }

    /// Makes the liveness check at the top of the read loop: the
    /// connection goes on only while its identity is the registry's
    /// active one.
    pub fn poll(&mut self, registry: &ClientState) -> (step: Step)
        ensures
            final(self)@ == old(self)@.react(
                Signal::Liveness { current: registry@.current(old(self)@.conn_id) },
            ).state,
            step.emit.deep_view() == old(self)@.react(
                Signal::Liveness { current: registry@.current(old(self)@.conn_id) },
            ).events,
            step.next@ == final(self)@.directive(),
    {
        let current = registry.is_current(self.conn_id);
        self.step(DriverEvent::Liveness { current })
    }
}

} // verus!
