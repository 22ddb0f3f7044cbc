//! The connection: numbering and registering the calls that go out, and
//! dispatching what comes in.
//!
//! A [`Connection`] does no input or output. The host sends the frame of
//! each [`MethodCall`] that [`Connection::call`] hands it, passes every
//! outcome of reading the socket to
//! [`Connection::dispatch_incoming_message`], and carries out the
//! [`Dispatch`] that comes back. A caller finds its answer with
//! [`Connection::receive`]. The host keeps the connection behind one lock,
//! so that each of these steps happens as a whole.

use crate::cdtp::parse;
use crate::cdtp::parse_raw_message;
use crate::cdtp::parsed_view;
use crate::cdtp::CallId;
use crate::cdtp::EventMessage;
use crate::cdtp::EventMessageView;
use crate::cdtp::Message;
use crate::cdtp::MessageView;
use crate::cdtp::Method;
use crate::cdtp::MethodCall;
use crate::cdtp::ResponseView;
use crate::errors::CodecError;
use crate::errors::CodecErrorView;
use crate::errors::ConnectionError;
use crate::errors::ConnectionErrorView;
use crate::errors::Fault;
use crate::errors::FaultView;
use crate::errors::TransportError;
use crate::json::decimal;
use crate::json::push_decimal;
use crate::waiting_call_registry::RegistryView;
use crate::waiting_call_registry::Slot;
use crate::waiting_call_registry::SlotView;
use crate::waiting_call_registry::WaitingCallRegistry;
use vstd::prelude::*;
use vstd::string::*;

verus! {

/// Where the dispatcher stands.
#[derive(Debug, Clone, Copy, PartialEq, Eq, Structural)]
pub enum DispatcherState {
    /// Frames are read and routed.
    Running,
    /// The dispatcher has stopped routing and failed the waiting calls; the
    /// host has yet to close the event channels.
    Terminating,
    /// The channels are closed and the task is over.
    Terminated,
}

/// One outcome of reading the socket.
#[derive(Debug, PartialEq, Eq)]
pub enum Incoming {
    /// A text frame.
    Text(String),
    /// A frame that is not text.
    NotText,
    /// Nothing to read for now.
    NoData,
    /// Any other failure of the read.
    Failed,
}

/// What an [`Incoming`] stands for.
pub enum IncomingView {
    Text(Seq<char>),
    NotText,
    NoData,
    Failed,
}

impl View for Incoming {
    type V = IncomingView;

    open spec fn view(&self) -> IncomingView {
        match self {
            Incoming::Text(frame) => IncomingView::Text(frame@),
            Incoming::NotText => IncomingView::NotText,
            Incoming::NoData => IncomingView::NoData,
            Incoming::Failed => IncomingView::Failed,
        }
    }
}

/// What the host is to do after one outcome of reading was dispatched.
#[derive(Debug, PartialEq, Eq)]
pub enum Dispatch {
    /// Nothing: there was nothing to read, or the dispatcher is not
    /// running.
    Nothing,
    /// The response to this call is in its slot: wake its caller.
    Resolved(CallId),
    /// A response came for this identifier and no call waits for it. It was
    /// dropped: record a warning.
    Dropped(CallId),
    /// Forward this envelope, which a target sent, on the channel of target
    /// messages.
    TargetMessage(Message),
    /// Forward this event on the channel of browser events, if there is
    /// one.
    BrowserEvent(EventMessage),
    /// The dispatcher stopped and every waiting call was failed: close the
    /// event channels and wake all callers. [`Connection::fault`] tells
    /// why.
    Terminate,
}

/// What a [`Dispatch`] stands for.
pub enum DispatchView {
    Nothing,
    Resolved(CallId),
    Dropped(CallId),
    TargetMessage(MessageView),
    BrowserEvent(EventMessageView),
    Terminate,
}

impl View for Dispatch {
    type V = DispatchView;

    open spec fn view(&self) -> DispatchView {
        match self {
            Dispatch::Nothing => DispatchView::Nothing,
            Dispatch::Resolved(id) => DispatchView::Resolved(*id),
            Dispatch::Dropped(id) => DispatchView::Dropped(*id),
            Dispatch::TargetMessage(message) => DispatchView::TargetMessage(message@),
            Dispatch::BrowserEvent(event) => DispatchView::BrowserEvent(event@),
            Dispatch::Terminate => DispatchView::Terminate,
        }
    }
}

/// What a caller is told when it asks for its answer: nothing yet, the
/// JSON text of the result, or an error.
pub open spec fn answer_view(answer: Option<Result<String, ConnectionError>>) -> Option<
    Result<Seq<char>, ConnectionErrorView>,
> {
    match answer {
        Some(Ok(result)) => Some(Ok(result@)),
        Some(Err(error)) => Some(Err(error@)),
        None => None,
    }
}

/// The answer that a slot holds for its caller.
pub open spec fn answer_in(slot: SlotView) -> Option<Result<Seq<char>, ConnectionErrorView>> {
    match slot {
        SlotView::Waiting => None,
        SlotView::Ready(response) => Some(
            match response.result {
                Ok(result) => Ok(result),
                Err(error) => Err(
                    ConnectionErrorView::Protocol { code: error.code, message: error.message },
                ),
            },
        ),
        SlotView::Disconnected => Some(Err(ConnectionErrorView::Closed)),
    }
}

/// What a [`Connection`] stands for.
pub struct ConnectionView {
    /// The identifier of the next call; as many calls went out before.
    pub next_call_id: nat,
    pub registry: RegistryView,
    pub state: DispatcherState,
}

impl ConnectionView {
    /// The registry is well formed, every slot belongs to a call that went
    /// out, and the waiting calls were failed exactly if the dispatcher
    /// has stopped.
    pub open spec fn wf(self) -> bool {
        &&& self.registry.wf()
        &&& self.next_call_id <= CallId::MAX
        &&& forall|id: CallId| #[trigger] self.registry.contains(id) ==> id < self.next_call_id
        &&& self.state is Running <==> self.registry.failure is None
    }

    /// A connection on which nothing has happened.
    pub open spec fn initial() -> ConnectionView {
        ConnectionView {
            next_call_id: 0,
            registry: RegistryView::empty(),
            state: DispatcherState::Running,
        }
    }

    /// The connection after a call went out: it took the next identifier
    /// and waits in its slot. Once the dispatcher has stopped no call goes
    /// out and nothing changes.
    pub open spec fn call(self) -> ConnectionView {
        if self.state is Running {
            ConnectionView {
                next_call_id: self.next_call_id + 1,
                registry: self.registry.register(self.next_call_id as CallId),
                state: self.state,
            }
        } else {
            self
        }
    }

    /// The connection after the caller of `id` asked for its answer.
    pub open spec fn receive(self, id: CallId) -> ConnectionView {
        ConnectionView { registry: self.registry.take(id), ..self }
    }

    /// What the caller of `id` is told when it asks for its answer.
    pub open spec fn answer(self, id: CallId) -> Option<Result<Seq<char>, ConnectionErrorView>> {
        answer_in(self.registry.slot(id))
    }

    /// The connection without the slot of `id`.
    pub open spec fn abandon(self, id: CallId) -> ConnectionView {
        ConnectionView { registry: self.registry.abandon(id), ..self }
    }

    /// The connection after the dispatcher stopped for `fault`: every
    /// waiting call is failed. A dispatcher that had stopped before stays
    /// as it is.
    pub open spec fn fail(self, fault: FaultView) -> ConnectionView {
        if self.state is Running {
            ConnectionView {
                registry: self.registry.fail_all(fault),
                state: DispatcherState::Terminating,
                ..self
            }
        } else {
            self
        }
    }

    /// The connection after the inbound stream ended or the host gave it
    /// up.
    pub open spec fn stop(self) -> ConnectionView {
        self.fail(FaultView::Shutdown)
    }

    /// The connection after the host closed the event channels of a
    /// dispatcher that had stopped.
    pub open spec fn terminated(self) -> ConnectionView {
        if self.state is Terminating {
            ConnectionView { state: DispatcherState::Terminated, ..self }
        } else {
            self
        }
    }

    /// The connection after a response came in.
    pub open spec fn resolve(self, response: ResponseView) -> ConnectionView {
        ConnectionView { registry: self.registry.resolve(response), ..self }
    }

    /// What the dispatcher tells the host about a response.
    pub open spec fn resolved(self, response: ResponseView) -> DispatchView {
        if self.registry.waiting.contains(response.id) {
            DispatchView::Resolved(response.id)
        } else {
            DispatchView::Dropped(response.id)
        }
    }

    /// The connection after the message of a target was read as an
    /// envelope: the envelope is forwarded; where there is none the
    /// dispatcher stops.
    pub open spec fn forward(self, inner: Result<MessageView, CodecErrorView>) -> (
        ConnectionView,
        DispatchView,
    ) {
        match inner {
            Ok(inner) => (self, DispatchView::TargetMessage(inner)),
            Err(error) => (self.fail(FaultView::Codec(error)), DispatchView::Terminate),
        }
    }

    /// The connection after an envelope was routed that came in a frame of
    /// its own.
    pub open spec fn route(self, message: MessageView) -> (ConnectionView, DispatchView) {
        match message {
            MessageView::Response(response) => (self.resolve(response), self.resolved(response)),
            MessageView::Event(EventMessageView::ReceivedMessageFromTarget { message, .. }) => {
                self.forward(parse(message))
            },
            MessageView::Event(event) => (self, DispatchView::BrowserEvent(event)),
        }
    }

    /// One step of the dispatcher: the connection after `incoming` was
    /// dispatched, and what the host is to do.
    ///
    /// A response goes to the registry. The message of a target is read as
    /// an envelope and forwarded. Any other event is forwarded as it is.
    /// A read that failed, a frame that is not text, and text that is no
    /// envelope stop the dispatcher. A dispatcher that has stopped
    /// dispatches nothing.
    pub open spec fn dispatch(self, incoming: IncomingView) -> (ConnectionView, DispatchView) {
        if !(self.state is Running) {
            (self, DispatchView::Nothing)
        } else {
            match incoming {
                IncomingView::NoData => (self, DispatchView::Nothing),
                IncomingView::Failed => (self.fail(FaultView::Transport), DispatchView::Terminate),
                IncomingView::NotText => (self.fail(FaultView::NotText), DispatchView::Terminate),
                IncomingView::Text(frame) => match parse(frame) {
                    Ok(message) => self.route(message),
                    Err(error) => (self.fail(FaultView::Codec(error)), DispatchView::Terminate),
                },
            }
        }
    }
}

/// What came of dispatching a whole inbound stream.
pub struct RunView {
    pub connection: ConnectionView,
    /// The envelopes forwarded on the channel of target messages, in
    /// order.
    pub target_messages: Seq<MessageView>,
    /// The events forwarded on the channel of browser events, in order.
    pub browser_events: Seq<EventMessageView>,
}

impl RunView {
    /// The run after one more step of the dispatcher.
    pub open spec fn step(self, incoming: IncomingView) -> RunView {
        let (connection, dispatch) = self.connection.dispatch(incoming);
        RunView {
            connection,
            target_messages: match dispatch {
                DispatchView::TargetMessage(message) => self.target_messages.push(message),
                _ => self.target_messages,
            },
            browser_events: match dispatch {
                DispatchView::BrowserEvent(event) => self.browser_events.push(event),
                _ => self.browser_events,
            },
        }
    }
}

impl ConnectionView {
    /// The run of the dispatcher over `stream`, one step for each outcome
    /// in order, from this connection.
    pub open spec fn run(self, stream: Seq<IncomingView>) -> RunView
        decreases stream.len(),
    {
        if stream.len() == 0 {
            RunView { connection: self, target_messages: Seq::empty(), browser_events: Seq::empty() }
        } else {
            self.run(stream.drop_last()).step(stream.last())
        }
    }
}

/// The address of the WebSocket endpoint of the browser `browser_id` that
/// listens for DevTools clients on `port` of this machine.
pub open spec fn websocket_url(port: u16, browser_id: Seq<char>) -> Seq<char> {
    "ws://127.0.0.1:"@ + decimal(port as nat) + "/devtools/browser/"@ + browser_id
}

/// What a list of envelopes stands for.
pub open spec fn messages_view(messages: Seq<Message>) -> Seq<MessageView> {
    messages.map_values(|m: Message| m@)
}

/// What a list of events stands for.
pub open spec fn events_view(events: Seq<EventMessage>) -> Seq<EventMessageView> {
    events.map_values(|e: EventMessage| e@)
}

/// What an inbound stream stands for.
pub open spec fn stream_view(stream: Seq<Incoming>) -> Seq<IncomingView> {
    stream.map_values(|i: Incoming| i@)
}

/// What came of dispatching a whole inbound stream.
#[derive(Debug, PartialEq, Eq)]
pub struct Dispatched {
    /// The envelopes for the channel of target messages, in order.
    pub target_messages: Vec<Message>,
    /// The events for the channel of browser events, in order.
    pub browser_events: Vec<EventMessage>,
}

/// The state of one connection to a browser: the identifier of the next
/// call, the slots of the calls that are out, and where the dispatcher
/// stands.
pub struct Connection {
    next_call_id: CallId,
    call_registry: WaitingCallRegistry,
    state: DispatcherState,
}

impl View for Connection {
    type V = ConnectionView;

    closed spec fn view(&self) -> ConnectionView {
        ConnectionView {
            next_call_id: self.next_call_id as nat,
            registry: self.call_registry@,
            state: self.state,
        }
    }
}

/// Where a step makes no slot, every slot still belongs to a call that
/// went out.
proof fn lemma_no_new_slots(before: ConnectionView, after: ConnectionView)
    requires
        before.wf(),
        before.next_call_id <= after.next_call_id,
        forall|id: CallId| #[trigger]
            after.registry.contains(id) ==> before.registry.contains(id),
    ensures
        forall|id: CallId| #[trigger] after.registry.contains(id) ==> id < after.next_call_id,
{
    assert forall|id: CallId| #[trigger] after.registry.contains(id) implies id
        < after.next_call_id by {
        assert(before.registry.contains(id));
    }
}

/// Tells a result of the declared shape from one that is not.
pub fn shaped<T>(object: Option<T>) -> (shaped: Result<T, ConnectionError>)
    ensures
        match object {
            Some(o) => shaped == Ok::<T, ConnectionError>(o),
            None => shaped matches Err(e) && e@ == ConnectionErrorView::ShapeMismatch,
        },
{
    match object {
        Some(o) => Ok(o),
        None => Err(ConnectionError::ShapeMismatch),
    }
}

impl Connection {
    /// A connection on which nothing has happened: the first call will be
    /// number 0, no call is out, and the dispatcher is running.
    pub fn new() -> (connection: Connection)
        ensures
            connection@ == ConnectionView::initial(),
            connection@.wf(),
    {
        Connection {
            next_call_id: 0,
            call_registry: WaitingCallRegistry::new(),
            state: DispatcherState::Running,
        }
    }

    /// The address at which the WebSocket connection to a browser is
    /// opened.
    pub fn websocket_connection(port: u16, browser_id: &str) -> (url: String)
        ensures
            url@ == websocket_url(port, browser_id@),
    {
        let mut url = "ws://127.0.0.1:".to_owned();
        push_decimal(&mut url, port as u64);
        url.append("/devtools/browser/");
        url.append(browser_id);
        url
    }

    /// Where the dispatcher stands.
    pub fn state(&self) -> (state: DispatcherState)
        ensures
            state == self@.state,
    {
        self.state
    }

    /// Why the dispatcher stopped, once it has.
    pub fn fault(&self) -> (fault: Option<&Fault>)
        ensures
            match fault {
                Some(fault) => self@.registry.failure == Some(fault@),
                None => self@.registry.failure is None,
            },
    {
        self.call_registry.failure()
    }

    /// The identifier that the next call will get.
    pub fn next_call_id(&self) -> (id: CallId)
        ensures
            id == self@.next_call_id,
    {
        self.next_call_id
    }

    /// Whether the call `id` is out and unanswered.
    pub fn is_waiting(&self, id: CallId) -> (waiting: bool)
        ensures
            waiting == self@.registry.waiting.contains(id),
    {
        self.call_registry.is_waiting(id)
    }

    /// The number of calls that are out and unanswered.
    pub fn outstanding(&self) -> (count: usize)
        ensures
            count == self@.registry.waiting.len(),
    {
        self.call_registry.outstanding()
    }

    /// Starts a call of `method` with the JSON text `params`.
    ///
    /// While the dispatcher runs the call gets the next identifier and a
    /// waiting slot, and comes back for the host to send. Once the
    /// dispatcher has stopped the call fails with `Closed` and nothing
    /// changes.
    pub fn call_method(&mut self, method: &str, params: &str) -> (call: Result<
        MethodCall,
        ConnectionError,
    >)
        requires
            old(self)@.wf(),
            old(self)@.state is Running ==> old(self)@.next_call_id < CallId::MAX,
        ensures
            final(self)@ == old(self)@.call(),
            final(self)@.wf(),
            match call {
                Ok(call) => {
                    &&& old(self)@.state is Running
                    &&& call.id == old(self)@.next_call_id
                    &&& call.method@ == method@
                    &&& call.params@ == params@
                },
                Err(error) => {
                    &&& !(old(self)@.state is Running)
                    &&& error@ == ConnectionErrorView::Closed
                },
            },
    {
        match self.state {
            DispatcherState::Running => {},
            _ => {
                return Err(ConnectionError::Closed);
            },
        }
        let id = self.next_call_id;
        self.call_registry.register_call(id);
        self.next_call_id = id + 1;
        proof {
            assert forall|other: CallId| #[trigger]
                self@.registry.contains(other) implies other < self@.next_call_id by {
                if other != id {
                    assert(old(self)@.registry.contains(other));
                }
            }
        }
        Ok(MethodCall { id, method: method.to_owned(), params: params.to_owned() })
    }

    /// Starts a call of a method that knows its own name and parameters.
    ///
    /// What [`Connection::call_method`] does, with the name and the
    /// parameters that `method` gives.
    pub fn call<C: Method>(&mut self, method: C) -> (call: Result<MethodCall, ConnectionError>)
        requires
            old(self)@.wf(),
            old(self)@.state is Running ==> old(self)@.next_call_id < CallId::MAX,
        ensures
            final(self)@ == old(self)@.call(),
            final(self)@.wf(),
            match call {
                Ok(call) => old(self)@.state is Running && call.id == old(self)@.next_call_id,
                Err(error) => {
                    &&& !(old(self)@.state is Running)
                    &&& error@ == ConnectionErrorView::Closed
                },
            },
    {
        let name = method.name();
        let params = method.params();
        self.call_method(name.as_str(), params.as_str())
    }

    /// Takes back a call that could not be sent, and gives the error to
    /// hand to its caller.
    pub fn send_failed(&mut self, id: CallId) -> (error: ConnectionError)
        requires
            old(self)@.wf(),
        ensures
            final(self)@ == old(self)@.abandon(id),
            final(self)@.wf(),
            error@ == ConnectionErrorView::Transport(TransportError::Send),
    {
        self.abandon(id);
        ConnectionError::Transport(TransportError::Send)
    }

    /// Removes the slot of a call whose caller no longer waits. A response
    /// that comes for it later is dropped.
    pub fn abandon(&mut self, id: CallId)
        requires
            old(self)@.wf(),
        ensures
            final(self)@ == old(self)@.abandon(id),
            final(self)@.wf(),
    {
        self.call_registry.abandon(id);
        proof {
            lemma_no_new_slots(old(self)@, self@);
        }
    }

    /// Looks for the answer to the call `id`.
    ///
    /// `None` while the call waits. Else the JSON text of the result, the
    /// browser's error as `Protocol`, or `Closed` where no response will
    /// come. An answer is given once: the slot is empty after.
    pub fn receive(&mut self, id: CallId) -> (answer: Option<Result<String, ConnectionError>>)
        requires
            old(self)@.wf(),
        ensures
            answer_view(answer) == old(self)@.answer(id),
            final(self)@ == old(self)@.receive(id),
            final(self)@.wf(),
    {
        let slot = self.call_registry.take(id);
        proof {
            lemma_no_new_slots(old(self)@, self@);
        }
        match slot {
            Slot::Waiting => None,
            Slot::Ready(response) => Some(
                match response.result {
                    Ok(result) => Ok(result),
                    Err(error) => Err(
                        ConnectionError::Protocol { code: error.code, message: error.message },
                    ),
                },
            ),
            Slot::Disconnected => Some(Err(ConnectionError::Closed)),
        }
    }

    /// Looks for the answer to the call `id` of the method `C`, and reads
    /// the result in the shape that the method declares.
    ///
    /// As [`Connection::receive`]; a result that `C` cannot read becomes
    /// `ShapeMismatch`.
    pub fn receive_object<C: Method>(&mut self, id: CallId) -> (answer: Option<
        Result<C::ReturnObject, ConnectionError>,
    >)
        requires
            old(self)@.wf(),
        ensures
            final(self)@ == old(self)@.receive(id),
            final(self)@.wf(),
            match old(self)@.answer(id) {
                None => answer is None,
                Some(Ok(_)) => match answer {
                    Some(Ok(_)) => true,
                    Some(Err(error)) => error@ == ConnectionErrorView::ShapeMismatch,
                    None => false,
                },
                Some(Err(error)) => answer matches Some(Err(e)) && e@ == error,
            },
    {
        match self.receive(id) {
            None => None,
            Some(Ok(result)) => Some(shaped(C::parse_result(result.as_str()))),
            Some(Err(error)) => Some(Err(error)),
        }
    }

    /// Stops the dispatcher for `fault`: every waiting call is failed, and
    /// no call goes out from now on. A dispatcher that had stopped before
    /// stays as it is, and so does the reason it stopped for.
    pub fn fail(&mut self, fault: Fault)
        requires
            old(self)@.wf(),
        ensures
            final(self)@ == old(self)@.fail(fault@),
            final(self)@.wf(),
    {
        match self.state {
            DispatcherState::Running => {
                self.call_registry.fail_all(fault);
                self.state = DispatcherState::Terminating;
                proof {
                    lemma_no_new_slots(old(self)@, self@);
                }
            },
            _ => {},
        }
    }

    /// Stops the dispatcher at the end of the inbound stream, or for the
    /// host that gives the connection up.
    pub fn stop(&mut self)
        requires
            old(self)@.wf(),
        ensures
            final(self)@ == old(self)@.stop(),
            final(self)@.wf(),
    {
        self.fail(Fault::Shutdown);
    }

    /// Records that the host closed the event channels after the
    /// dispatcher stopped.
    pub fn terminated(&mut self)
        requires
            old(self)@.wf(),
        ensures
            final(self)@ == old(self)@.terminated(),
            final(self)@.wf(),
    {
        match self.state {
            DispatcherState::Terminating => {
                self.state = DispatcherState::Terminated;
            },
            _ => {},
        }
    }

    /// Forwards what the message of a target holds, or stops the
    /// dispatcher where it holds no envelope.
    pub fn forward(&mut self, inner: Result<Message, CodecError>) -> (dispatch: Dispatch)
        requires
            old(self)@.wf(),
        ensures
            (final(self)@, dispatch@) == old(self)@.forward(parsed_view(inner)),
            final(self)@.wf(),
    {
        match inner {
            Ok(inner) => Dispatch::TargetMessage(inner),
            Err(error) => {
                self.fail(Fault::Codec(error));
                Dispatch::Terminate
            },
        }
    }

    /// Routes one envelope that came in a frame of its own: a response to
    /// the slot that waits for it, the message of a target to the channel
    /// of target messages, any other event to the channel of browser
    /// events.
    pub fn route(&mut self, message: Message) -> (dispatch: Dispatch)
        requires
            old(self)@.wf(),
        ensures
            (final(self)@, dispatch@) == old(self)@.route(message@),
            final(self)@.wf(),
    {
        match message {
            Message::Response(response) => {
                let id = response.id;
                let delivered = self.call_registry.resolve(response);
                proof {
                    lemma_no_new_slots(old(self)@, self@);
                }
                if delivered {
                    Dispatch::Resolved(id)
                } else {
                    Dispatch::Dropped(id)
                }
            },
            Message::Event(EventMessage::ReceivedMessageFromTarget(event)) => {
                let inner = parse_raw_message(event.message.as_str());
                self.forward(inner)
            },
            Message::Event(event) => Dispatch::BrowserEvent(event),
        }
    }

    /// Dispatches one outcome of reading the socket, and tells the host
    /// what to do.
    pub fn dispatch_incoming_message(&mut self, incoming: &Incoming) -> (dispatch: Dispatch)
        requires
            old(self)@.wf(),
        ensures
            (final(self)@, dispatch@) == old(self)@.dispatch(incoming@),
            final(self)@.wf(),
    {
        match self.state {
            DispatcherState::Running => {},
            _ => {
                return Dispatch::Nothing;
            },
        }
        match incoming {
            Incoming::NoData => Dispatch::Nothing,
            Incoming::Failed => {
                self.fail(Fault::Transport);
                Dispatch::Terminate
            },
            Incoming::NotText => {
                self.fail(Fault::NotText);
                Dispatch::Terminate
            },
            Incoming::Text(frame) => match parse_raw_message(frame.as_str()) {
                Ok(message) => self.route(message),
                Err(error) => {
                    self.fail(Fault::Codec(error));
                    Dispatch::Terminate
                },
            },
        }
    }

    /// Runs the dispatcher over a whole inbound stream, to its end.
    ///
    /// Each outcome is dispatched in order. What the host would forward is
    /// collected, each channel in its order. When the stream is through
    /// the dispatcher is stopped, if no fault stopped it before: the calls
    /// that still wait are failed.
    pub fn dispatch_incoming_messages(&mut self, stream: &Vec<Incoming>) -> (dispatched: Dispatched)
        requires
            old(self)@.wf(),
        ensures
            final(self)@ == old(self)@.run(stream_view(stream@)).connection.stop().terminated(),
            messages_view(dispatched.target_messages@) == old(self)@.run(
                stream_view(stream@),
            ).target_messages,
            events_view(dispatched.browser_events@) == old(self)@.run(
                stream_view(stream@),
            ).browser_events,
            final(self)@.wf(),
    {
        let ghost start = self@;
        let ghost all = stream_view(stream@);
        let mut target_messages: Vec<Message> = Vec::new();
        let mut browser_events: Vec<EventMessage> = Vec::new();
        let mut i: usize = 0;
        while i < stream.len()
            invariant
                i <= stream.len(),
                all == stream_view(stream@),
                self@.wf(),
                self@ == start.run(all.take(i as int)).connection,
                messages_view(target_messages@) == start.run(all.take(i as int)).target_messages,
                events_view(browser_events@) == start.run(all.take(i as int)).browser_events,
            decreases stream.len() - i,
        {
            assert(all.take(i + 1).drop_last() =~= all.take(i as int));
            let ghost targets_before = target_messages@;
            let ghost events_before = browser_events@;
            match self.dispatch_incoming_message(&stream[i]) {
                Dispatch::TargetMessage(message) => {
                    target_messages.push(message);
                    assert(messages_view(target_messages@) =~= messages_view(targets_before).push(
                        message@,
                    ));
                },
                Dispatch::BrowserEvent(event) => {
                    browser_events.push(event);
                    assert(events_view(browser_events@) =~= events_view(events_before).push(
                        event@,
                    ));
                },
                _ => {},
            }
            i += 1;
        }
        assert(all.take(i as int) =~= all);
        self.stop();
        self.terminated();
        Dispatched { target_messages, browser_events }
    }
}

} // verus!
