//! What holds of a connection whatever happens to it, proved of the model
//! that the contracts of [`Connection`](crate::connection::Connection)
//! speak of.
//!
//! A run of a connection is a sequence of [`Step`]s, one for each call of
//! a function that changes a connection: callers start calls, ask for
//! answers and give up, the dispatcher is handed what was read, the host
//! stops it. The steps of many callers and of the dispatcher come in
//! whatever order the lock lets them through; the statements here hold of
//! every order.

use crate::cdtp::parse;
use crate::cdtp::CallId;
use crate::cdtp::EventMessageView;
use crate::cdtp::MessageView;
use crate::cdtp::ResponseView;
use crate::connection::answer_in;
use crate::connection::ConnectionView;
use crate::connection::DispatchView;
use crate::connection::IncomingView;
use crate::connection::RunView;
use crate::errors::CodecErrorView;
use crate::errors::ConnectionErrorView;
use crate::errors::FaultView;
use crate::waiting_call_registry::SlotView;
use vstd::prelude::*;

verus! {

/// One thing that happens to a connection.
pub enum Step {
    /// A caller starts a call.
    Call,
    /// The dispatcher is handed an outcome of reading the socket.
    Dispatch(IncomingView),
    /// An envelope is routed that came in a frame of its own.
    Route(MessageView),
    /// What the message of a target holds is forwarded.
    Forward(Result<MessageView, CodecErrorView>),
    /// The caller of this call asks for its answer.
    Receive(CallId),
    /// This call is taken back: it could not be sent, or its caller gave
    /// up.
    Abandon(CallId),
    /// The dispatcher is stopped: for a fault, at the end of the inbound
    /// stream, or by the host that gives the connection up.
    Fail(FaultView),
    /// The host has closed the event channels.
    Terminated,
}

/// The connection after one step.
pub open spec fn apply(connection: ConnectionView, step: Step) -> ConnectionView {
    match step {
        Step::Call => connection.call(),
        Step::Dispatch(incoming) => connection.dispatch(incoming).0,
        Step::Route(message) => connection.route(message).0,
        Step::Forward(inner) => connection.forward(inner).0,
        Step::Receive(id) => connection.receive(id),
        Step::Abandon(id) => connection.abandon(id),
        Step::Fail(fault) => connection.fail(fault),
        Step::Terminated => connection.terminated(),
    }
}

/// The connection after a run.
pub open spec fn after(connection: ConnectionView, steps: Seq<Step>) -> ConnectionView
    decreases steps.len(),
{
    if steps.len() == 0 {
        connection
    } else {
        apply(after(connection, steps.drop_last()), steps.last())
    }
}

/// The identifiers of the calls that went out in a run, in order.
pub open spec fn issued(connection: ConnectionView, steps: Seq<Step>) -> Seq<nat>
    decreases steps.len(),
{
    if steps.len() == 0 {
        Seq::empty()
    } else {
        let before = after(connection, steps.drop_last());
        let earlier = issued(connection, steps.drop_last());
        if steps.last() is Call && before.state is Running {
            earlier.push(before.next_call_id)
        } else {
            earlier
        }
    }
}

/// Whether a step is of the caller of `id`: it empties or removes that
/// caller's slot.
pub open spec fn of_caller(step: Step, id: CallId) -> bool {
    step == Step::Receive(id) || step == Step::Abandon(id)
}

/// The calls of a run are numbered from the next identifier up, one by
/// one, whatever else happens between them.
pub proof fn lemma_identifiers_count_up(connection: ConnectionView, steps: Seq<Step>)
    ensures
        after(connection, steps).next_call_id == connection.next_call_id + issued(
            connection,
            steps,
        ).len(),
        forall|k: int|
            0 <= k < issued(connection, steps).len() ==> #[trigger] issued(connection, steps)[k]
                == connection.next_call_id + k,
    decreases steps.len(),
{
    if steps.len() > 0 {
        lemma_identifiers_count_up(connection, steps.drop_last());
    }
}

/// On a new connection the identifiers of any run with `K` calls are
/// 0, 1, ..., `K - 1`, each once.
pub proof fn lemma_identifiers_are_unique(steps: Seq<Step>)
    ensures
        issued(ConnectionView::initial(), steps) == Seq::new(
            issued(ConnectionView::initial(), steps).len(),
            |k: int| k as nat,
        ),
        issued(ConnectionView::initial(), steps).no_duplicates(),
        issued(ConnectionView::initial(), steps).to_set() == Set::new(
            |id: nat| id < issued(ConnectionView::initial(), steps).len(),
        ),
        issued(ConnectionView::initial(), steps).to_set().len() == issued(
            ConnectionView::initial(),
            steps,
        ).len(),
{
    let ids = issued(ConnectionView::initial(), steps);
    lemma_identifiers_count_up(ConnectionView::initial(), steps);
    assert forall|id: nat| ids.to_set().contains(id) <==> id < ids.len() by {
        if id < ids.len() {
            assert(ids[id as int] == id);
        }
    }
    ids.unique_seq_to_set();
}

/// Whether every call of a run finds an identifier left for it.
pub open spec fn in_range(connection: ConnectionView, steps: Seq<Step>) -> bool {
    connection.next_call_id + issued(connection, steps).len() <= CallId::MAX
}

/// A run that stays in range did so up to each of its steps.
pub proof fn lemma_in_range_before(connection: ConnectionView, steps: Seq<Step>, j: int)
    requires
        in_range(connection, steps),
        0 <= j <= steps.len(),
    ensures
        in_range(connection, steps.take(j)),
        issued(connection, steps.take(j)).len() <= issued(connection, steps).len(),
    decreases steps.len() - j,
{
    if j < steps.len() {
        lemma_in_range_before(connection, steps, j + 1);
        assert(steps.take(j + 1).drop_last() =~= steps.take(j));
    } else {
        assert(steps.take(j) =~= steps);
    }
}

/// A well-formed connection is well formed after any step for which an
/// identifier is left.
pub proof fn lemma_step_keeps_wf(connection: ConnectionView, step: Step)
    requires
        connection.wf(),
        step is Call && connection.state is Running ==> connection.next_call_id < CallId::MAX,
    ensures
        apply(connection, step).wf(),
{
    let next = apply(connection, step);
    assert forall|id: CallId| #[trigger] next.registry.contains(id) implies id
        < next.next_call_id by {
        if !connection.registry.contains(id) {
            assert(step is Call);
        }
    }
    match step {
        Step::Call => {
            assert(!connection.registry.contains(connection.next_call_id as CallId));
        },
        Step::Abandon(id) => {
            assert(Set::<CallId>::empty().remove(id) =~= Set::<CallId>::empty());
        },
        _ => {},
    }
}

/// Well-formedness is an invariant: it holds after every run in range of a
/// well-formed connection, and so in every state that a new connection
/// reaches.
pub proof fn lemma_run_keeps_wf(connection: ConnectionView, steps: Seq<Step>)
    requires
        connection.wf(),
        in_range(connection, steps),
    ensures
        after(connection, steps).wf(),
    decreases steps.len(),
{
    if steps.len() > 0 {
        lemma_in_range_before(connection, steps, steps.len() - 1);
        lemma_run_keeps_wf(connection, steps.drop_last());
        lemma_identifiers_count_up(connection, steps.drop_last());
        lemma_step_keeps_wf(after(connection, steps.drop_last()), steps.last());
    }
}

/// Every slot belongs to a call that went out: on a connection that was
/// new before the run, an identifier with a slot is one of those issued.
pub proof fn lemma_slots_belong_to_calls(steps: Seq<Step>, id: CallId)
    requires
        in_range(ConnectionView::initial(), steps),
        after(ConnectionView::initial(), steps).registry.contains(id),
    ensures
        issued(ConnectionView::initial(), steps).contains(id as nat),
{
    let initial = ConnectionView::initial();
    lemma_run_keeps_wf(initial, steps);
    lemma_identifiers_count_up(initial, steps);
    assert(issued(initial, steps)[id as int] == id as nat);
}

/// A response in its slot stays there until its caller asks or gives up,
/// whatever else happens.
pub proof fn lemma_ready_slot_stays(connection: ConnectionView, id: CallId, steps: Seq<Step>)
    requires
        connection.wf(),
        connection.registry.delivered.contains_key(id),
        in_range(connection, steps),
        forall|j: int| 0 <= j < steps.len() ==> !of_caller(#[trigger] steps[j], id),
    ensures
        after(connection, steps).wf(),
        after(connection, steps).registry.delivered.contains_key(id),
        after(connection, steps).registry.delivered[id] == connection.registry.delivered[id],
    decreases steps.len(),
{
    lemma_run_keeps_wf(connection, steps);
    if steps.len() > 0 {
        let earlier = steps.drop_last();
        lemma_in_range_before(connection, steps, steps.len() - 1);
        assert forall|j: int| 0 <= j < earlier.len() implies !of_caller(
            #[trigger] earlier[j],
            id,
        ) by {
            assert(earlier[j] == steps[j]);
        }
        lemma_ready_slot_stays(connection, id, earlier);
        assert(!of_caller(steps.last(), id));
    }
}

/// Each caller gets its own response and no other's. Once the response to
/// a waiting call has come in, its caller is answered with it whenever it
/// asks: whatever the other callers and the dispatcher do meanwhile, and
/// in whatever order other responses come.
pub proof fn lemma_response_waits_for_its_caller(
    connection: ConnectionView,
    response: ResponseView,
    steps: Seq<Step>,
)
    requires
        connection.wf(),
        connection.registry.waiting.contains(response.id),
        in_range(connection.resolve(response), steps),
        forall|j: int| 0 <= j < steps.len() ==> !of_caller(#[trigger] steps[j], response.id),
    ensures
        after(connection.resolve(response), steps).answer(response.id) == answer_in(
            SlotView::Ready(response),
        ),
{
    lemma_step_keeps_wf(connection, Step::Route(MessageView::Response(response)));
    lemma_ready_slot_stays(connection.resolve(response), response.id, steps);
}

/// A call is answered by the response that bears its identifier. The call
/// that goes out on a running connection waits; once a response with its
/// identifier has come in, its caller is told what that response holds.
pub proof fn lemma_call_is_answered_by_its_response(
    connection: ConnectionView,
    response: ResponseView,
)
    requires
        connection.wf(),
        connection.state is Running,
        connection.next_call_id < CallId::MAX,
        response.id == connection.next_call_id,
    ensures
        connection.call().answer(response.id) is None,
        connection.call().resolve(response).answer(response.id) == answer_in(
            SlotView::Ready(response),
        ),
        connection.call().resolve(response).receive(response.id).answer(response.id) == Some(
            Err::<Seq<char>, ConnectionErrorView>(ConnectionErrorView::Closed),
        ),
{
    assert(!connection.registry.contains(response.id));
}

/// The order in which the responses to two calls come in does not matter.
pub proof fn lemma_responses_commute(
    connection: ConnectionView,
    first: ResponseView,
    second: ResponseView,
)
    requires
        first.id != second.id,
    ensures
        connection.resolve(first).resolve(second) == connection.resolve(second).resolve(first),
{
    let one = connection.resolve(first).resolve(second);
    let other = connection.resolve(second).resolve(first);
    assert(one.registry.waiting =~= other.registry.waiting);
    assert(one.registry.delivered =~= other.registry.delivered);
}

/// Whether a step hands `response` to the dispatcher: in a text frame
/// that holds it, or as the envelope to route.
pub open spec fn hands_in(step: Step, response: ResponseView) -> bool {
    match step {
        Step::Dispatch(IncomingView::Text(frame)) => parse(frame) == Ok::<
            MessageView,
            CodecErrorView,
        >(MessageView::Response(response)),
        Step::Route(message) => message == MessageView::Response(response),
        _ => false,
    }
}

/// Whether step `j` of a run hands `response` to the dispatcher while the
/// call of that identifier waits.
pub open spec fn delivers(
    connection: ConnectionView,
    steps: Seq<Step>,
    j: int,
    response: ResponseView,
) -> bool {
    &&& 0 <= j < steps.len()
    &&& hands_in(steps[j], response)
    &&& after(connection, steps.take(j)).registry.waiting.contains(response.id)
}

/// What lies in a slot came in a frame, or lay there before the run.
pub proof fn lemma_ready_slots_were_delivered(
    connection: ConnectionView,
    steps: Seq<Step>,
    id: CallId,
)
    requires
        after(connection, steps).registry.delivered.contains_key(id),
    ensures
        ({
            let response = after(connection, steps).registry.delivered[id];
            ||| connection.registry.delivered.contains_key(id)
                && connection.registry.delivered[id] == response
            ||| exists|j: int| delivers(connection, steps, j, response)
        }),
    decreases steps.len(),
{
    let response = after(connection, steps).registry.delivered[id];
    if steps.len() > 0 {
        let earlier = steps.drop_last();
        let before = after(connection, earlier);
        let last = steps.len() - 1;
        if before.registry.delivered.contains_key(id) && before.registry.delivered[id]
            == response {
            lemma_ready_slots_were_delivered(connection, earlier, id);
            if !(connection.registry.delivered.contains_key(id)
                && connection.registry.delivered[id] == response) {
                let j = choose|j: int| delivers(connection, earlier, j, response);
                assert(earlier.take(j) =~= steps.take(j));
                assert(delivers(connection, steps, j, response));
            }
        } else {
            assert(delivers(connection, steps, last, response));
        }
    }
}

/// The answer that a caller gets is read from the response that came in
/// for its own call: what lies in the slot of `id` bears the identifier
/// `id`, and was handed to the dispatcher while the call `id` waited.
pub proof fn lemma_answers_are_correlated(steps: Seq<Step>, id: CallId)
    requires
        in_range(ConnectionView::initial(), steps),
    ensures
        match after(ConnectionView::initial(), steps).registry.slot(id) {
            SlotView::Ready(response) => {
                &&& response.id == id
                &&& exists|j: int| delivers(ConnectionView::initial(), steps, j, response)
            },
            _ => true,
        },
{
    let initial = ConnectionView::initial();
    lemma_run_keeps_wf(initial, steps);
    if after(initial, steps).registry.delivered.contains_key(id) {
        lemma_ready_slots_were_delivered(initial, steps, id);
    }
}

/// The envelope that one outcome of reading holds for the channel of
/// target messages: what the message of a target holds, read as an
/// envelope.
pub open spec fn target_message_in(incoming: IncomingView) -> Option<MessageView> {
    match incoming {
        IncomingView::Text(frame) => match parse(frame) {
            Ok(MessageView::Event(EventMessageView::ReceivedMessageFromTarget { message, .. })) => {
                match parse(message) {
                    Ok(inner) => Some(inner),
                    Err(_) => None,
                }
            },
            _ => None,
        },
        _ => None,
    }
}

/// The event that one outcome of reading holds for the channel of browser
/// events: any event but one that carries the message of a target.
pub open spec fn browser_event_in(incoming: IncomingView) -> Option<EventMessageView> {
    match incoming {
        IncomingView::Text(frame) => match parse(frame) {
            Ok(MessageView::Event(EventMessageView::Other { name, params })) => Some(
                EventMessageView::Other { name, params },
            ),
            _ => None,
        },
        _ => None,
    }
}

/// Whether an outcome of reading stops a running dispatcher.
pub open spec fn fatal(incoming: IncomingView) -> bool {
    match incoming {
        IncomingView::NoData => false,
        IncomingView::Failed => true,
        IncomingView::NotText => true,
        IncomingView::Text(frame) => match parse(frame) {
            Ok(MessageView::Event(EventMessageView::ReceivedMessageFromTarget { message, .. })) => {
                parse(message) is Err
            },
            Ok(_) => false,
            Err(_) => true,
        },
    }
}

/// Events are split between the two channels and keep their order. Over
/// a stream without a fatal outcome, the channel of target messages gets
/// what the messages of targets hold, read as envelopes, and nothing
/// else; the channel of browser events gets the other events and nothing
/// else; each in the order of the stream. The dispatcher runs on.
pub proof fn lemma_events_are_split(connection: ConnectionView, stream: Seq<IncomingView>)
    requires
        connection.state is Running,
        forall|i: int| 0 <= i < stream.len() ==> !fatal(#[trigger] stream[i]),
    ensures
        connection.run(stream).connection.state is Running,
        connection.run(stream).target_messages == stream.filter_map(
            |incoming: IncomingView| target_message_in(incoming),
        ),
        connection.run(stream).browser_events == stream.filter_map(
            |incoming: IncomingView| browser_event_in(incoming),
        ),
    decreases stream.len(),
{
    if stream.len() > 0 {
        let earlier = stream.drop_last();
        assert forall|i: int| 0 <= i < earlier.len() implies !fatal(#[trigger] earlier[i]) by {
            assert(earlier[i] == stream[i]);
        }
        lemma_events_are_split(connection, earlier);
        assert(!fatal(stream.last()));
    }
}

/// A dispatcher that has stopped dispatches nothing: whatever the rest of
/// the stream holds, nothing is forwarded and the connection stays as it
/// is.
pub proof fn lemma_nothing_after_a_fault(connection: ConnectionView, stream: Seq<IncomingView>)
    requires
        !(connection.state is Running),
    ensures
        connection.run(stream) == (RunView {
            connection,
            target_messages: Seq::empty(),
            browser_events: Seq::empty(),
        }),
    decreases stream.len(),
{
    if stream.len() > 0 {
        lemma_nothing_after_a_fault(connection, stream.drop_last());
    }
}

/// The message of a target is read again as an envelope of its own. The
/// envelope that is forwarded is exactly what reading the text of the
/// message gives; where that text is no envelope the dispatcher stops.
pub proof fn lemma_target_message_is_read_again(
    connection: ConnectionView,
    frame: Seq<char>,
    params: Seq<char>,
    message: Seq<char>,
)
    requires
        connection.state is Running,
        parse(frame) == Ok::<MessageView, CodecErrorView>(
            MessageView::Event(EventMessageView::ReceivedMessageFromTarget { params, message }),
        ),
    ensures
        connection.dispatch(IncomingView::Text(frame)) == match parse(message) {
            Ok(inner) => (connection, DispatchView::TargetMessage(inner)),
            Err(error) => (connection.fail(FaultView::Codec(error)), DispatchView::Terminate),
        },
{
}

/// Once the dispatcher has stopped it stays stopped.
pub proof fn lemma_stopped_stays_stopped(connection: ConnectionView, steps: Seq<Step>)
    requires
        !(connection.state is Running),
    ensures
        !(after(connection, steps).state is Running),
    decreases steps.len(),
{
    if steps.len() > 0 {
        lemma_stopped_stays_stopped(connection, steps.drop_last());
    }
}

/// When the dispatcher stops, every call that waits is failed: its caller
/// is told `Closed`. A response that had come in before stays for its
/// caller. From then on no caller is ever left waiting, whatever happens:
/// every one that asks is answered.
pub proof fn lemma_stop_fails_waiting_calls(
    connection: ConnectionView,
    fault: FaultView,
    steps: Seq<Step>,
    id: CallId,
)
    requires
        connection.wf(),
        connection.state is Running,
        in_range(connection.fail(fault), steps),
    ensures
        connection.registry.waiting.contains(id) ==> connection.fail(fault).answer(id) == Some(
            Err::<Seq<char>, ConnectionErrorView>(ConnectionErrorView::Closed),
        ),
        !connection.registry.waiting.contains(id) ==> connection.fail(fault).answer(id)
            == connection.answer(id),
        after(connection.fail(fault), steps).registry.waiting == Set::<CallId>::empty(),
        after(connection.fail(fault), steps).answer(id) is Some,
{
    lemma_step_keeps_wf(connection, Step::Fail(fault));
    lemma_run_keeps_wf(connection.fail(fault), steps);
    lemma_stopped_stays_stopped(connection.fail(fault), steps);
}

/// One frame that is no envelope is fatal: the dispatcher stops for it,
/// is terminated once the host has closed the channels, and every call
/// that waited is failed.
pub proof fn lemma_malformed_frame_is_fatal(
    connection: ConnectionView,
    frame: Seq<char>,
    error: CodecErrorView,
    id: CallId,
)
    requires
        connection.wf(),
        connection.state is Running,
        parse(frame) == Err::<MessageView, CodecErrorView>(error),
    ensures
        connection.dispatch(IncomingView::Text(frame)) == (
            connection.fail(FaultView::Codec(error)),
            DispatchView::Terminate,
        ),
        connection.fail(FaultView::Codec(error)).state is Terminating,
        connection.fail(FaultView::Codec(error)).terminated().state is Terminated,
        connection.fail(FaultView::Codec(error)).registry.failure == Some(FaultView::Codec(error)),
        connection.registry.waiting.contains(id) ==> connection.fail(
            FaultView::Codec(error),
        ).answer(id) == Some(Err::<Seq<char>, ConnectionErrorView>(ConnectionErrorView::Closed)),
{
}

/// The run over a stream ends where the dispatcher stops: what comes
/// after in the stream changes nothing and is forwarded nowhere.
pub proof fn lemma_run_ends_at_a_fault(
    connection: ConnectionView,
    stream: Seq<IncomingView>,
    n: int,
)
    requires
        0 <= n <= stream.len(),
        !(connection.run(stream.take(n)).connection.state is Running),
    ensures
        connection.run(stream) == connection.run(stream.take(n)),
    decreases stream.len() - n,
{
    if n < stream.len() {
        assert(stream.take(n + 1).drop_last() =~= stream.take(n));
        lemma_run_ends_at_a_fault(connection, stream, n + 1);
    } else {
        assert(stream.take(n) =~= stream);
    }
}

/// Events are split up to the first fatal outcome and no further. Over a
/// stream whose first fatal outcome is the one at `n`, each channel gets
/// what the outcomes before `n` hold for it, in their order, and nothing
/// of what comes after; the dispatcher has stopped.
pub proof fn lemma_events_are_split_up_to_a_fault(
    connection: ConnectionView,
    stream: Seq<IncomingView>,
    n: int,
)
    requires
        connection.state is Running,
        0 <= n < stream.len(),
        forall|i: int| 0 <= i < n ==> !fatal(#[trigger] stream[i]),
        fatal(stream[n]),
    ensures
        connection.run(stream).connection.state is Terminating,
        connection.run(stream).target_messages == stream.take(n).filter_map(
            |incoming: IncomingView| target_message_in(incoming),
        ),
        connection.run(stream).browser_events == stream.take(n).filter_map(
            |incoming: IncomingView| browser_event_in(incoming),
        ),
{
    lemma_events_are_split(connection, stream.take(n));
    assert(stream.take(n + 1).drop_last() =~= stream.take(n));
    assert(stream.take(n + 1).last() == stream[n]);
    lemma_run_ends_at_a_fault(connection, stream, n + 1);
}

/// A run of the dispatcher keeps a well-formed connection well formed.
pub proof fn lemma_dispatching_keeps_wf(connection: ConnectionView, stream: Seq<IncomingView>)
    requires
        connection.wf(),
    ensures
        connection.run(stream).connection.wf(),
    decreases stream.len(),
{
    if stream.len() > 0 {
        lemma_dispatching_keeps_wf(connection, stream.drop_last());
        lemma_step_keeps_wf(
            connection.run(stream.drop_last()).connection,
            Step::Dispatch(stream.last()),
        );
    }
}

/// When the inbound stream is through the dispatcher is terminated, fault
/// or no fault, and no call is left waiting: every caller that asks is
/// answered.
pub proof fn lemma_end_of_stream_terminates(
    connection: ConnectionView,
    stream: Seq<IncomingView>,
    id: CallId,
)
    requires
        connection.wf(),
    ensures
        connection.run(stream).connection.stop().terminated().state is Terminated,
        connection.run(stream).connection.stop().terminated().registry.waiting == Set::<
            CallId,
        >::empty(),
        connection.run(stream).connection.stop().terminated().answer(id) is Some,
{
    lemma_dispatching_keeps_wf(connection, stream);
    let end = connection.run(stream).connection;
    lemma_step_keeps_wf(end, Step::Fail(FaultView::Shutdown));
    lemma_step_keeps_wf(end.stop(), Step::Terminated);
}

} // verus!
