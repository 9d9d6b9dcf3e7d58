//! What holds of every run of the stream driver, whatever the host reports.

use crate::driver::{cancelled_reason, idle_timeout_message, DriverState, Phase, Signal};
use crate::event::EventView;
use crate::framer::lemma_remainder_has_no_newline;
use crate::registry::Identities;
use crate::text::decimal;
use vstd::prelude::*;

verus! {

/// Whether `events` can be all that a connection in `phase` has delivered:
/// nothing before the response; after it one `Connected`, then messages
/// only; and once the connection is over at most one terminal event, which
/// is the last.
pub open spec fn orderly(phase: Phase, events: Seq<EventView>) -> bool {
    match phase {
        Phase::Idle => events.len() == 0,
        Phase::Requesting => events.len() == 0,
        Phase::Streaming => streamed(events),
        Phase::Terminated => events.len() == 0 || (events.last().is_terminal() && (
        events.len() == 1 || streamed(events.drop_last()))),
    }
}

/// One `Connected`, then messages only.
pub open spec fn streamed(events: Seq<EventView>) -> bool {
    &&& events.len() >= 1
    &&& events[0] is Connected
    &&& forall|i: int| 1 <= i < events.len() ==> (#[trigger] events[i]).is_message()
}

/// A driver stays in the states that a driver can be in.
pub proof fn lemma_react_keeps_wf(state: DriverState, signal: Signal)
    requires
        state.wf(),
    ensures
        state.react(signal).state.wf(),
        state.react(signal).state.conn_id == state.conn_id,
{
    if let Signal::Text { text } = signal {
        lemma_remainder_has_no_newline(state.buffer + text);
    }
}

/// The same, of a whole run.
pub proof fn lemma_run_keeps_wf(state: DriverState, signals: Seq<Signal>)
    requires
        state.wf(),
    ensures
        state.after_all(signals).wf(),
        state.after_all(signals).conn_id == state.conn_id,
    decreases signals.len(),
{
    if signals.len() > 0 {
        lemma_run_keeps_wf(state, signals.drop_last());
        lemma_react_keeps_wf(state.after_all(signals.drop_last()), signals.last());
    }
}

/// A connection that is over stays over: whatever is reported afterwards,
/// the state does not change and nothing is delivered.
pub proof fn lemma_terminated_is_final(state: DriverState, signals: Seq<Signal>)
    requires
        state.phase == Phase::Terminated,
    ensures
        state.after_all(signals) == state,
        state.events_of(signals) == Seq::<EventView>::empty(),
    decreases signals.len(),
{
    if signals.len() > 0 {
        lemma_terminated_is_final(state, signals.drop_last());
    }
}

/// Cancellation is observed at the next liveness check and is final. Once
/// the registry was invalidated, or a later connection has begun, the
/// check at the top of the read loop fails; the driver then delivers one
/// `Disconnected`, ends without a failure, and delivers nothing more,
/// whatever the host reports afterwards: no message in particular.
pub proof fn lemma_cancellation_is_observed(
    state: DriverState,
    registry: Identities,
    later: Seq<Signal>,
)
    requires
        state.wf(),
        state.phase == Phase::Streaming,
        !state.checked,
        !registry.current(state.conn_id),
    ensures
        !registry.invalidated().current(state.conn_id),
        ({
            let check = Signal::Liveness { current: registry.current(state.conn_id) };
            let reaction = state.react(check);
            &&& reaction.events == seq![EventView::Disconnected { reason: cancelled_reason() }]
            &&& reaction.state.phase == Phase::Terminated
            &&& reaction.state.failure is None
            &&& reaction.state.events_of(later) == Seq::<EventView>::empty()
        }),
{
    let check = Signal::Liveness { current: registry.current(state.conn_id) };
    lemma_terminated_is_final(state.react(check).state, later);
}

/// Messages come out of chunks only, and a chunk counts only right after a
/// liveness check that passed: so between two chunks that count there is a
/// check, and a cancelled connection delivers the messages of at most the
/// one chunk that was awaited when it was cancelled.
pub proof fn lemma_messages_need_liveness(state: DriverState, signal: Signal)
    ensures
        (exists|i: int|
            0 <= i < state.react(signal).events.len() && (
            #[trigger] state.react(signal).events[i]).is_message()) ==> {
            &&& state.phase == Phase::Streaming
            &&& state.checked
            &&& signal is Text || signal is StreamEnded
        },
        signal is Text && state.phase == Phase::Streaming && state.checked ==> !state.react(
            signal,
        ).state.checked,
{
}

/// A silent connection fails once and for all: when no chunk comes within
/// the idle-read timeout, the driver delivers exactly one `Error`, which
/// names the ninety seconds, returns that failure, and delivers nothing
/// more, whatever the host reports afterwards.
pub proof fn lemma_idle_timeout_is_terminal(state: DriverState, later: Seq<Signal>)
    requires
        state.phase == Phase::Streaming,
        state.checked,
    ensures
        idle_timeout_message() == "SSE read timeout (90s without data)"@,
        ({
            let reaction = state.react(Signal::IdleTimeout);
            &&& reaction.events == seq![EventView::Error { message: idle_timeout_message() }]
            &&& reaction.state.phase == Phase::Terminated
            &&& reaction.state.failure == Some(idle_timeout_message())
            &&& reaction.state.events_of(later) == Seq::<EventView>::empty()
        }),
{
    lemma_terminated_is_final(state.react(Signal::IdleTimeout).state, later);
    reveal_strlit("SSE read timeout (");
    reveal_strlit("s without data)");
    reveal_strlit("SSE read timeout (90s without data)");
    assert(decimal(90) =~= seq!['9', '0']) by {
        reveal_with_fuel(decimal, 2);
    }
    assert(idle_timeout_message() =~= "SSE read timeout (90s without data)"@);
}

/// A connection is independent of the connections before it: what it
/// delivers, and how it ends, follows from what is reported to it and from
/// nothing else. Two connections that are told the same deliver the same,
/// whatever their identities and whatever was cancelled before they began.
pub proof fn lemma_connections_are_independent(first: nat, second: nat, signals: Seq<Signal>)
    ensures
        ({
            let one = DriverState::idle().begun(first);
            let other = DriverState::idle().begun(second);
            &&& one.events_of(signals) == other.events_of(signals)
            &&& one.after_all(signals) == (DriverState {
                conn_id: first,
                ..other.after_all(signals)
            })
        }),
    decreases signals.len(),
{
    if signals.len() > 0 {
        lemma_connections_are_independent(first, second, signals.drop_last());
    }
}

/// One step keeps the events in order.
proof fn lemma_step_keeps_order(state: DriverState, events: Seq<EventView>, signal: Signal)
    requires
        orderly(state.phase, events),
    ensures
        orderly(state.react(signal).state.phase, events + state.react(signal).events),
{
    let reaction = state.react(signal);
    let all = events + reaction.events;
    if reaction.events.len() == 0 {
        assert(all =~= events);
    } else if state.phase == Phase::Requesting {
        assert(all =~= reaction.events);
    } else if reaction.state.phase == Phase::Streaming {
        assert forall|i: int| 1 <= i < all.len() implies (#[trigger] all[i]).is_message() by {
            if i >= events.len() {
                assert(all[i] == reaction.events[i - events.len()]);
            } else {
                assert(all[i] == events[i]);
            }
        }
    } else {
        let shown = all.drop_last();
        assert(all.last() == reaction.events.last());
        assert forall|i: int| 1 <= i < shown.len() implies (#[trigger] shown[i]).is_message() by {
            if i >= events.len() {
                assert(shown[i] == reaction.events[i - events.len()]);
            } else {
                assert(shown[i] == events[i]);
            }
        }
        assert(shown[0] == events[0]);
    }
}

/// The events of a connection come in order: whatever the host reports to
/// a driver that has just begun, `Connected` comes first if any message
/// comes at all, only messages follow it, and at most one terminal event
/// comes, after which nothing does.
pub proof fn lemma_events_come_in_order(id: nat, signals: Seq<Signal>)
    ensures
        ({
            let start = DriverState::idle().begun(id);
            orderly(start.after_all(signals).phase, start.events_of(signals))
        }),
    decreases signals.len(),
{
    let start = DriverState::idle().begun(id);
    if signals.len() > 0 {
        let earlier = signals.drop_last();
        lemma_events_come_in_order(id, earlier);
        lemma_step_keeps_order(start.after_all(earlier), start.events_of(earlier), signals.last());
    }
}

} // verus!
