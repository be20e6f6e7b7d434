//! What holds of every run of a thread's state.

use vstd::prelude::*;
use crate::event::{LevelFilter, LoggingEvent, Signal};
use crate::logger::{batch_step, fault_step, states_step};
use crate::profile::{span_signals, states_run};
use crate::registry::state_for;
use crate::thread_state::{
    has_match, is_first_match, lemma_first_match_unique, next_sequence, ThreadView,
};

verus! {

/// The state after `signals` have been dispatched in order, starting from `state`.
pub open spec fn run(state: ThreadView, signals: Seq<Signal>) -> ThreadView
    decreases signals.len(),
{
    if signals.len() == 0 {
        state
    } else {
        run(state, signals.drop_last()).after(signals.last())
    }
}

/// By how much one signal changes the number of open spans.
pub open spec fn depth_change(signal: Signal) -> int {
    match signal {
        Signal::Open => 1,
        Signal::Close => -1,
        _ => 0,
    }
}

/// The number of opens minus the number of closes among `signals`.
pub open spec fn net_depth(signals: Seq<Signal>) -> int
    decreases signals.len(),
{
    if signals.len() == 0 {
        0
    } else {
        net_depth(signals.drop_last()) + depth_change(signals.last())
    }
}

/// Starting at depth `start`, no prefix of `signals` closes more spans than
/// are open, or opens more than the depth counter can count.
pub open spec fn well_nested(start: usize, signals: Seq<Signal>) -> bool {
    forall|k: int|
        0 <= k <= signals.len() ==> 0 <= start + #[trigger] net_depth(signals.take(k))
            <= usize::MAX
}

/// The depth of a thread is the depth it started at plus the opens minus the
/// closes that it has seen.
pub proof fn lemma_depth_counts_open_spans(state: ThreadView, signals: Seq<Signal>)
    requires
        well_nested(state.indentation, signals),
    ensures
        run(state, signals).indentation == state.indentation + net_depth(signals),
    decreases signals.len(),
{
    assert(signals.take(signals.len() as int) =~= signals);
    if signals.len() > 0 {
        let front = signals.drop_last();
        assert forall|k: int| 0 <= k <= front.len() implies 0 <= state.indentation
            + #[trigger] net_depth(front.take(k)) <= usize::MAX by {
            assert(front.take(k) =~= signals.take(k));
        }
        assert(front =~= signals.take(signals.len() - 1));
        lemma_depth_counts_open_spans(state, front);
    }
}

/// An event is buffered with the depth at which its thread started plus the
/// opens minus the closes seen strictly before it.
pub proof fn lemma_event_indentation(state: ThreadView, signals: Seq<Signal>, i: int)
    requires
        well_nested(state.indentation, signals),
        0 <= i < signals.len(),
        signals[i] is Event,
    ensures
        run(state, signals.take(i)).applied(signals[i]).events.last().indentation
            == state.indentation + net_depth(signals.take(i)),
        run(state, signals.take(i)).applied(signals[i]).events.last() == signals[i]->Event_0.stamped(
            run(state, signals.take(i)).indentation,
        ),
{
    let front = signals.take(i);
    assert forall|k: int| 0 <= k <= front.len() implies 0 <= state.indentation
        + #[trigger] net_depth(front.take(k)) <= usize::MAX by {
        assert(front.take(k) =~= signals.take(k));
    }
    lemma_depth_counts_open_spans(state, front);
}

/// A signal flushes a batch exactly when it leaves the depth at zero. The
/// batch is then the whole buffer, and the buffer is empty afterwards; at
/// any other depth nothing leaves the buffer.
pub proof fn lemma_flush_iff_depth_zero(state: ThreadView, signal: Signal)
    ensures
        state.applied(signal).batch() is Some <==> state.applied(signal).indentation == 0,
        state.after(signal).indentation == state.applied(signal).indentation,
        state.applied(signal).indentation == 0 ==> state.applied(signal).batch() == Some(
            state.applied(signal).events,
        ) && state.after(signal).events.len() == 0,
        state.applied(signal).indentation > 0 ==> state.after(signal) == state.applied(signal),
{
}

/// A dispatched signal keeps the buffer well formed: a duration is only
/// ever set on an event that carries a correlation id.
pub proof fn lemma_after_preserves_wf(state: ThreadView, signal: Signal)
    requires
        state.wf(),
        signal matches Signal::Event(e) ==> e.elapsed is None,
    ensures
        state.applied(signal).wf(),
        state.after(signal).wf(),
{
    match signal {
        Signal::PatchTiming { id, elapsed } => {
            if has_match(state.events, id) {
                let k = choose|k: int| is_first_match(state.events, id, k);
                assert forall|i: int| 0 <= i < state.events.len() implies (
                #[trigger] state.applied(signal).events[i]).wf() by {
                    assert(state.events[i].wf());
                }
            }
        },
        Signal::Event(event) => {
            assert forall|i: int| 0 <= i < state.applied(signal).events.len() implies (
            #[trigger] state.applied(signal).events[i]).wf() by {
                if i < state.events.len() {
                    assert(state.events[i].wf());
                }
            }
        },
        _ => {},
    }
}

/// A duration is set at most once: no signal changes a buffered event that
/// carries one, and a timing patch touches no event but the one it sets.
pub proof fn lemma_duration_set_once(state: ThreadView, signal: Signal, i: int)
    requires
        0 <= i < state.events.len(),
    ensures
        state.applied(signal).events.len() >= state.events.len(),
        state.events[i].elapsed is Some ==> state.applied(signal).events[i] == state.events[i],
        state.applied(signal).events[i] != state.events[i] ==> (signal matches Signal::PatchTiming {
            id,
            elapsed,
        } && is_first_match(state.events, id, i) && state.applied(signal).events[i]
            == state.events[i].timed(elapsed)),
{
    match signal {
        Signal::PatchTiming { id, elapsed } => {
            if has_match(state.events, id) {
                let k = crate::thread_state::first_match(state.events, id);
                assert(is_first_match(state.events, id, k));
            }
        },
        _ => {},
    }
}

/// A span around work that logs nothing, on a thread that holds no event with
/// the span's id: before the span's last close the buffer is what it was,
/// followed by the header one level deeper and carrying the elapsed time. No
/// other event is touched. The last close flushes exactly when the span was
/// the outermost one.
pub proof fn lemma_span_patches_once(
    state: ThreadView,
    header: LoggingEvent,
    id: usize,
    elapsed: u128,
)
    requires
        header.id == Some(id),
        header.elapsed is None,
        !has_match(state.events, id),
        state.indentation + 2 <= usize::MAX,
    ensures
        run(state, span_signals(header, id, elapsed).take(5)) == (ThreadView {
            indentation: (state.indentation + 1) as usize,
            next_id: next_sequence(state.next_id),
            events: state.events.push(
                header.stamped((state.indentation + 1) as usize).timed(elapsed),
            ),
        }),
        run(state, span_signals(header, id, elapsed)) == run(
            state,
            span_signals(header, id, elapsed).take(5),
        ).after(Signal::Close),
        run(state, span_signals(header, id, elapsed)).indentation == state.indentation,
        run(state, span_signals(header, id, elapsed).take(5)).applied(Signal::Close).batch()
            == (if state.indentation == 0 {
            Some(
                state.events.push(header.stamped((state.indentation + 1) as usize).timed(elapsed)),
            )
        } else {
            None
        }),
{
    let all = span_signals(header, id, elapsed);
    let s5 = all.take(5);
    let s4 = s5.drop_last();
    let s3 = s4.drop_last();
    let s2 = s3.drop_last();
    let s1 = s2.drop_last();
    let s0 = s1.drop_last();
    assert(all.drop_last() =~= s5);
    assert(s0.len() == 0);
    reveal_with_fuel(run, 8);
    let t1 = run(state, s1);
    assert(t1 == state.opened());
    let t2 = run(state, s2);
    assert(s2.last() == Signal::Event(header));
    assert(t2 == t1.recorded(header));
    let t3 = run(state, s3);
    assert(t3 == t2.opened());
    let t4 = run(state, s4);
    assert(t4 == t3.closed());
    let t5 = run(state, s5);
    assert(s5.last() == Signal::PatchTiming { id, elapsed });
    assert(t5 == t4.retimed(id, elapsed));
    let stamped = header.stamped((state.indentation + 1) as usize);
    let last = t4.events.len() - 1;
    assert(t4.events == state.events.push(stamped));
    assert(is_first_match(t4.events, id, last)) by {
        assert forall|j: int| 0 <= j < last implies t4.events[j].id != Some(id) by {
            if t4.events[j].id == Some(id) {
                crate::thread_state::lemma_has_match(state.events, id, j);
            }
        }
    }
    let k = choose|k: int| is_first_match(t4.events, id, k);
    lemma_first_match_unique(t4.events, id, k, last);
    assert(t5.events =~= state.events.push(stamped.timed(elapsed)));
}

/// Signals from one thread touch the state of that thread only, and leave
/// it as a run of the signals on that state does, provided that every event
/// among them passes the level threshold.
pub proof fn lemma_states_follow_thread(
    states: Map<Seq<char>, ThreadView>,
    threshold: LevelFilter,
    key: Seq<char>,
    signals: Seq<Signal>,
)
    requires
        signals.len() > 0,
        forall|i: int|
            0 <= i < signals.len() ==> (#[trigger] signals[i] matches Signal::Event(e)
                ==> threshold.admits(e.level)),
    ensures
        states_run(states, threshold, key, signals) == states.insert(
            key,
            run(state_for(states, key), signals),
        ),
    decreases signals.len(),
{
    let front = signals.drop_last();
    let start = state_for(states, key);
    assert(signals.last() == signals[signals.len() - 1]);
    if front.len() == 0 {
        assert(states_run(states, threshold, key, front) == states);
        assert(run(start, front) == start);
    } else {
        assert forall|i: int| 0 <= i < front.len() implies (#[trigger] front[i] matches Signal::Event(e)
            ==> threshold.admits(e.level)) by {
            assert(front[i] == signals[i]);
        }
        lemma_states_follow_thread(states, threshold, key, front);
        let prev = states.insert(key, run(start, front));
        assert(state_for(prev, key) == run(start, front));
        assert(prev.insert(key, run(start, front).after(signals.last())) =~= states.insert(
            key,
            run(start, signals),
        ));
    }
}

/// Threads do not interfere: a signal from one thread leaves the state of
/// every other thread as it is, changes neither the batch nor the fault that
/// a signal of another thread produces, and signals of two different threads
/// lead to the same states in either order.
pub proof fn lemma_threads_do_not_interfere(
    states: Map<Seq<char>, ThreadView>,
    threshold: LevelFilter,
    one: Seq<char>,
    other: Seq<char>,
    x: Signal,
    y: Signal,
)
    requires
        one != other,
    ensures
        state_for(states_step(states, threshold, one, x), other) == state_for(states, other),
        batch_step(states_step(states, threshold, one, x), threshold, other, y) == batch_step(
            states,
            threshold,
            other,
            y,
        ),
        fault_step(states_step(states, threshold, one, x), threshold, other, y) == fault_step(
            states,
            threshold,
            other,
            y,
        ),
        states_step(states_step(states, threshold, one, x), threshold, other, y) == states_step(
            states_step(states, threshold, other, y),
            threshold,
            one,
            x,
        ),
{
    assert(states_step(states_step(states, threshold, one, x), threshold, other, y)
        =~= states_step(states_step(states, threshold, other, y), threshold, one, x));
}

} // verus!
