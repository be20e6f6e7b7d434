//! The span helper: brackets a unit of work with the signals that make it a
//! span and patches the time it took onto the span's header.

use vstd::prelude::*;
use std::time::{Duration, Instant};
use crate::event::{Fault, Level, LevelFilter, LoggingEvent, Signal};
use crate::filter::EventFilter;
use crate::logger::{
    batch_step, fault_entries, fault_step, make_thread_tag, states_step, thread_key, thread_tag, TreeLogger,
};
use crate::registry::state_for;
use crate::thread_state::{can_patch, next_sequence, ThreadView};

verus! {

/// `std::time::Instant`, carried through as an opaque value.
#[verifier::external_type_specification]
#[verifier::external_body]
pub struct ExInstant(Instant);

/// `std::time::Instant::now`: the current reading of the monotonic clock.
#[verifier::external_body]
fn clock_now() -> Instant {
    Instant::now()
}

/// `std::time::Instant::elapsed`: the time that has passed since `start`.
/// Nothing is claimed of its value.
#[verifier::external_body]
fn time_since(start: &Instant) -> Duration {
    start.elapsed()
}

/// `std::time::Duration::as_millis`: the whole milliseconds of a duration.
/// Nothing is claimed of its value.
#[verifier::external_body]
fn whole_millis(duration: &Duration) -> u128 {
    duration.as_millis()
}

/// The whole milliseconds that have passed since `start`.
fn millis_since(start: &Instant) -> u128 {
    let passed = time_since(start);
    whole_millis(&passed)
}

/// The signals of one span around work that logs nothing itself, in order.
pub open spec fn span_signals(header: LoggingEvent, id: usize, elapsed: u128) -> Seq<Signal> {
    seq![
        Signal::Open,
        Signal::Event(header),
        Signal::Open,
        Signal::Close,
        Signal::PatchTiming { id, elapsed },
        Signal::Close,
    ]
}

/// The thread states after `signals` from the thread kept under `key`.
pub open spec fn states_run(
    states: Map<Seq<char>, ThreadView>,
    threshold: LevelFilter,
    key: Seq<char>,
    signals: Seq<Signal>,
) -> Map<Seq<char>, ThreadView>
    decreases signals.len(),
{
    if signals.len() == 0 {
        states
    } else {
        states_step(
            states_run(states, threshold, key, signals.drop_last()),
            threshold,
            key,
            signals.last(),
        )
    }
}

/// `header` is the header event of the span with the given id, texts and flags.
pub open spec fn is_span_header(
    header: LoggingEvent,
    id: usize,
    label: String,
    location: String,
    level: Level,
    quiet: bool,
    tag: Seq<char>,
) -> bool {
    &&& header.id == Some(id)
    &&& header.elapsed is None
    &&& header.level == level
    &&& header.quiet == quiet
    &&& header.args == label
    &&& header.target == location
    &&& header.thread@ == tag
}

/// The thread states once a span has been entered: opened, its header
/// buffered, and the level for its content opened.
pub open spec fn entered(
    states: Map<Seq<char>, ThreadView>,
    threshold: LevelFilter,
    key: Seq<char>,
    header: LoggingEvent,
) -> Map<Seq<char>, ThreadView> {
    states_step(
        states_step(states_step(states, threshold, key, Signal::Open), threshold, key, Signal::Event(header)),
        threshold,
        key,
        Signal::Open,
    )
}

/// The thread states once a span has been left: the level of its content
/// closed, its time patched, and the span closed.
pub open spec fn exited(
    states: Map<Seq<char>, ThreadView>,
    threshold: LevelFilter,
    key: Seq<char>,
    id: usize,
    elapsed: u128,
) -> Map<Seq<char>, ThreadView> {
    states_step(
        states_step(
            states_step(states, threshold, key, Signal::Close),
            threshold,
            key,
            Signal::PatchTiming { id, elapsed },
        ),
        threshold,
        key,
        Signal::Close,
    )
}

/// The faults that leaving a span runs into, in order.
pub open spec fn exit_faults(
    states: Map<Seq<char>, ThreadView>,
    threshold: LevelFilter,
    key: Seq<char>,
    id: usize,
    elapsed: u128,
) -> Seq<Fault> {
    let first = states_step(states, threshold, key, Signal::Close);
    let second = states_step(first, threshold, key, Signal::PatchTiming { id, elapsed });
    fault_entries(fault_step(states, threshold, key, Signal::Close)) + fault_entries(
        fault_step(first, threshold, key, Signal::PatchTiming { id, elapsed }),
    ) + fault_entries(fault_step(second, threshold, key, Signal::Close))
}

/// The batch that leaving a span flushes with its last close; empty when
/// the span was not the outermost one.
pub open spec fn exit_batch(
    states: Map<Seq<char>, ThreadView>,
    threshold: LevelFilter,
    key: Seq<char>,
    id: usize,
    elapsed: u128,
) -> Seq<LoggingEvent> {
    let first = states_step(states, threshold, key, Signal::Close);
    let second = states_step(first, threshold, key, Signal::PatchTiming { id, elapsed });
    batch_step(second, threshold, key, Signal::Close)
}

/// Enters a span: allocates its correlation id, opens the span, buffers its
/// header and opens the level for what happens inside. Returns the id, with
/// which the span is left again.
pub fn span_enter<P: EventFilter>(
    logger: &mut TreeLogger<P>,
    thread: Option<&str>,
    label: String,
    location: String,
    level: Level,
    quiet: bool,
) -> (id: usize)
    ensures
        id == old(logger).next_span_id,
        final(logger).same_settings(
            (TreeLogger { next_span_id: next_sequence(old(logger).next_span_id), ..*old(logger) }),
        ),
        final(logger).faults@ == old(logger).faults@,
        final(logger).output@ == old(logger).output@,
        exists|header: LoggingEvent|
            is_span_header(
                header,
                id,
                label,
                location,
                level,
                quiet,
                thread_tag(old(logger).threads_enabled, thread),
            ) && final(logger).data@ == #[trigger] entered(
                old(logger).data@,
                old(logger).default_level,
                thread_key(thread),
                header,
            ),
{
    let id: usize = logger.allocate_span_id();
    let ghost o0 = logger.output@;
    let ghost f0 = logger.faults@;
    logger.log(thread, Signal::Open);
    proof {
        logger.lemma_nothing_appended(o0);
    }
    let header = LoggingEvent {
        id: Some(id),
        indentation: 0,
        elapsed: None,
        level,
        target: location,
        args: label,
        thread: make_thread_tag(logger.threads_enabled, thread),
        quiet,
    };
    let ghost h = header;
    logger.log(thread, Signal::Event(header));
    proof {
        logger.lemma_nothing_appended(o0);
    }
    logger.log(thread, Signal::Open);
    proof {
        logger.lemma_nothing_appended(o0);
        assert(logger.faults@ =~= f0);
        assert(logger.data@ == entered(old(logger).data@, old(logger).default_level, thread_key(thread), h));
    }
    id
}

/// Leaves the span that was entered under `id`: closes the level of its
/// content, patches `elapsed` onto its header, and closes the span.
pub fn span_exit<P: EventFilter>(
    logger: &mut TreeLogger<P>,
    thread: Option<&str>,
    id: usize,
    elapsed: u128,
)
    ensures
        final(logger).same_settings(*old(logger)),
        final(logger).data@ == exited(
            old(logger).data@,
            old(logger).default_level,
            thread_key(thread),
            id,
            elapsed,
        ),
        final(logger).faults@ == old(logger).faults@ + exit_faults(
            old(logger).data@,
            old(logger).default_level,
            thread_key(thread),
            id,
            elapsed,
        ),
        old(logger).output@.len() <= final(logger).output@.len(),
        final(logger).output@.take(old(logger).output@.len() as int) == old(logger).output@,
        old(logger).state_of(thread).indentation >= 2 ==> final(logger).appended_lines_render(
            old(logger).output@,
            exit_batch(old(logger).data@, old(logger).default_level, thread_key(thread), id, elapsed),
        ),
{
    let ghost o0 = logger.output@;
    let ghost deep = logger.state_of(thread).indentation >= 2;
    logger.log(thread, Signal::Close);
    proof {
        if deep {
            logger.lemma_nothing_appended(o0);
        }
    }
    let ghost o1 = logger.output@;
    logger.log(thread, Signal::PatchTiming { id, elapsed });
    proof {
        if deep {
            logger.lemma_nothing_appended(o0);
        }
    }
    let ghost o2 = logger.output@;
    logger.log(thread, Signal::Close);
    proof {
        let o3 = logger.output@;
        assert(logger.faults@ =~= old(logger).faults@ + exit_faults(
            old(logger).data@,
            old(logger).default_level,
            thread_key(thread),
            id,
            elapsed,
        ));
        assert(o3.take(o0.len() as int) =~= o0) by {
            assert forall|i: int| 0 <= i < o0.len() implies o3[i] == o0[i] by {
                assert(o1.take(o0.len() as int)[i] == o1[i]);
                assert(o2.take(o1.len() as int)[i] == o2[i]);
                assert(o3.take(o2.len() as int)[i] == o3[i]);
            }
        }
    }
}

/// The faults of a span around work that logs nothing: none when the patch
/// finds its event among those that the thread holds, the header included
/// where it was buffered; an unmatched patch otherwise.
pub open spec fn span_faults(
    admitted: bool,
    state: ThreadView,
    header: LoggingEvent,
    id: usize,
) -> Seq<Fault> {
    let events = if admitted {
        state.opened().recorded(header).events
    } else {
        state.events
    };
    if can_patch(events, id) {
        Seq::empty()
    } else {
        seq![Fault::UnmatchedPatch]
    }
}

/// Leaving a span right after it was entered never closes more than was
/// opened, and misses its header only when the header was not buffered.
pub proof fn lemma_span_faults(
    states: Map<Seq<char>, ThreadView>,
    threshold: LevelFilter,
    key: Seq<char>,
    header: LoggingEvent,
    id: usize,
    elapsed: u128,
)
    ensures
        exit_faults(entered(states, threshold, key, header), threshold, key, id, elapsed)
            == span_faults(threshold.admits(header.level), state_for(states, key), header, id),
        state_for(entered(states, threshold, key, header), key).indentation >= 2,
{
    let s1 = states_step(states, threshold, key, Signal::Open);
    let s2 = states_step(s1, threshold, key, Signal::Event(header));
    let s3 = states_step(s2, threshold, key, Signal::Open);
    let s4 = states_step(s3, threshold, key, Signal::Close);
    let s5 = states_step(s4, threshold, key, Signal::PatchTiming { id, elapsed });
    let t0 = state_for(states, key);
    let t1 = state_for(s1, key);
    let t2 = state_for(s2, key);
    let t3 = state_for(s3, key);
    let t4 = state_for(s4, key);
    let t5 = state_for(s5, key);
    assert(t1 == t0.opened());
    assert(t1.indentation >= 1);
    if threshold.admits(header.level) {
        assert(t2 == t1.recorded(header));
    } else {
        assert(t2 == t1);
    }
    assert(t3 == t2.opened());
    assert(t3.indentation >= 2);
    assert(t4 == t3.closed());
    assert(t4.events == t2.events);
    assert(t5 == t4.retimed(id, elapsed));
    assert(t5.indentation >= 1);
    assert(exit_faults(s3, threshold, key, id, elapsed) =~= span_faults(
        threshold.admits(header.level),
        t0,
        header,
        id,
    ));
}

/// Runs `func` as a span of severity `Info`.
pub fn profile_core<P: EventFilter, F: FnOnce() -> T, T>(
    logger: &mut TreeLogger<P>,
    thread: Option<&str>,
    label: String,
    location: String,
    func: F,
    quiet: bool,
) -> (rv: T)
    requires
        func.requires(()),
    ensures
        func.ensures((), rv),
        final(logger).same_settings(
            (TreeLogger { next_span_id: next_sequence(old(logger).next_span_id), ..*old(logger) }),
        ),
        exists|header: LoggingEvent, elapsed: u128|
            is_span_header(
                header,
                old(logger).next_span_id,
                label,
                location,
                Level::Info,
                quiet,
                thread_tag(old(logger).threads_enabled, thread),
            ) && final(logger).data@ == #[trigger] states_run(
                old(logger).data@,
                old(logger).default_level,
                thread_key(thread),
                span_signals(header, old(logger).next_span_id, elapsed),
            ) && final(logger).appended_lines_render(
                old(logger).output@,
                exit_batch(
                    entered(old(logger).data@, old(logger).default_level, thread_key(thread), header),
                    old(logger).default_level,
                    thread_key(thread),
                    old(logger).next_span_id,
                    elapsed,
                ),
            ) && final(logger).faults@ == old(logger).faults@ + span_faults(
                old(logger).default_level.admits(Level::Info),
                old(logger).state_of(thread),
                header,
                old(logger).next_span_id,
            ),
{
    profile_core_with_level(logger, thread, label, location, func, Level::Info, quiet)
}

/// Runs `func` as a span: enters the span, runs the work, leaves the span
/// with the time that the work took, and returns what the work returned.
/// The work itself sends nothing to the logger.
pub fn profile_core_with_level<P: EventFilter, F: FnOnce() -> T, T>(
    logger: &mut TreeLogger<P>,
    thread: Option<&str>,
    label: String,
    location: String,
    func: F,
    level: Level,
    quiet: bool,
) -> (rv: T)
    requires
        func.requires(()),
    ensures
        func.ensures((), rv),
        final(logger).same_settings(
            (TreeLogger { next_span_id: next_sequence(old(logger).next_span_id), ..*old(logger) }),
        ),
        exists|header: LoggingEvent, elapsed: u128|
            is_span_header(
                header,
                old(logger).next_span_id,
                label,
                location,
                level,
                quiet,
                thread_tag(old(logger).threads_enabled, thread),
            ) && final(logger).data@ == #[trigger] states_run(
                old(logger).data@,
                old(logger).default_level,
                thread_key(thread),
                span_signals(header, old(logger).next_span_id, elapsed),
            ) && final(logger).appended_lines_render(
                old(logger).output@,
                exit_batch(
                    entered(old(logger).data@, old(logger).default_level, thread_key(thread), header),
                    old(logger).default_level,
                    thread_key(thread),
                    old(logger).next_span_id,
                    elapsed,
                ),
            ) && final(logger).faults@ == old(logger).faults@ + span_faults(
                old(logger).default_level.admits(level),
                old(logger).state_of(thread),
                header,
                old(logger).next_span_id,
            ),
{
    let ghost threshold = logger.default_level;
    let ghost key = thread_key(thread);
    let ghost s0 = logger.data@;
    let ghost o0 = logger.output@;
    let id: usize = span_enter(logger, thread, label, location, level, quiet);
    let ghost o1 = logger.output@;
    let ghost s1 = logger.data@;
    let start = clock_now();
    let rv = func();
    let elapsed: u128 = millis_since(&start);
    span_exit(logger, thread, id, elapsed);
    proof {
        let tag = thread_tag(old(logger).threads_enabled, thread);
        let h = choose|h: LoggingEvent|
            is_span_header(h, id, label, location, level, quiet, tag) && s1 == #[trigger] entered(
                s0,
                threshold,
                key,
                h,
            );
        lemma_span_states(s0, threshold, key, h, id, elapsed);
        lemma_span_faults(s0, threshold, key, h, id, elapsed);
        assert(logger.data@ == states_run(s0, threshold, key, span_signals(h, id, elapsed)));
        assert(o1 == o0);
        assert(state_for(s1, key).indentation >= 2);
    }
    rv
}

/// The states after the signals of a span, written step by step.
pub proof fn lemma_span_states(
    states: Map<Seq<char>, ThreadView>,
    threshold: LevelFilter,
    key: Seq<char>,
    header: LoggingEvent,
    id: usize,
    elapsed: u128,
)
    ensures
        states_run(states, threshold, key, span_signals(header, id, elapsed)) == states_step(
            states_step(
                states_step(
                    states_step(
                        states_step(
                            states_step(states, threshold, key, Signal::Open),
                            threshold,
                            key,
                            Signal::Event(header),
                        ),
                        threshold,
                        key,
                        Signal::Open,
                    ),
                    threshold,
                    key,
                    Signal::Close,
                ),
                threshold,
                key,
                Signal::PatchTiming { id, elapsed },
            ),
            threshold,
            key,
            Signal::Close,
        ),
{
    let s6 = span_signals(header, id, elapsed);
    let s5 = s6.drop_last();
    let s4 = s5.drop_last();
    let s3 = s4.drop_last();
    let s2 = s3.drop_last();
    let s1 = s2.drop_last();
    let s0 = s1.drop_last();
    assert(s0.len() == 0);
    reveal_with_fuel(states_run, 8);
    assert(states_run(states, threshold, key, s0) == states);
    assert(states_run(states, threshold, key, s1) == states_step(
        states,
        threshold,
        key,
        Signal::Open,
    ));
}

/// What holds of a span around work that uses the logger: `given` is the
/// logger as the work received it and `left` as the work left it, `header`
/// is the span's header and `elapsed` the time that was patched onto it.
pub open spec fn is_span_around<P: EventFilter>(
    before: TreeLogger<P>,
    after: TreeLogger<P>,
    given: TreeLogger<P>,
    left: TreeLogger<P>,
    thread: Option<&str>,
    header: LoggingEvent,
    elapsed: u128,
) -> bool {
    let id = before.next_span_id;
    let key = thread_key(thread);
    &&& given.same_settings((TreeLogger { next_span_id: next_sequence(id), ..before }))
    &&& given.data@ == entered(before.data@, before.default_level, key, header)
    &&& given.faults@ == before.faults@
    &&& given.output@ == before.output@
    &&& after.same_settings(left)
    &&& after.data@ == exited(left.data@, left.default_level, key, id, elapsed)
    &&& after.faults@ == left.faults@ + exit_faults(left.data@, left.default_level, key, id, elapsed)
    &&& left.output@.len() <= after.output@.len()
    &&& after.output@.take(left.output@.len() as int) == left.output@
    &&& left.state_of(thread).indentation >= 2 ==> after.appended_lines_render(
        left.output@,
        exit_batch(left.data@, left.default_level, key, id, elapsed),
    )
}

/// Runs `func` as a span and hands it the logger, so that the work can log
/// and open spans of its own: enters the span, runs the work on the logger,
/// leaves the span with the time that the work took, and returns what the
/// work returned.
pub fn profile_with<P: EventFilter, F: FnOnce(&mut TreeLogger<P>) -> T, T>(
    logger: &mut TreeLogger<P>,
    thread: Option<&str>,
    label: String,
    location: String,
    func: F,
    level: Level,
    quiet: bool,
) -> (rv: T)
    requires
        forall|l: &mut TreeLogger<P>| call_requires(func, (l,)),
    ensures
        exists|inner: &mut TreeLogger<P>| #[trigger]
            call_ensures(func, (inner,), rv) && exists|header: LoggingEvent, elapsed: u128|
                is_span_header(
                    header,
                    old(logger).next_span_id,
                    label,
                    location,
                    level,
                    quiet,
                    thread_tag(old(logger).threads_enabled, thread),
                ) && #[trigger] is_span_around(
                    *old(logger),
                    *final(logger),
                    *inner,
                    *final(inner),
                    thread,
                    header,
                    elapsed,
                ),
{
    let ghost tag = thread_tag(logger.threads_enabled, thread);
    let ghost s0 = logger.data@;
    let ghost threshold = logger.default_level;
    let id: usize = span_enter(logger, thread, label, location, level, quiet);
    let ghost h = choose|h: LoggingEvent|
        is_span_header(h, id, label, location, level, quiet, tag) && logger.data@
            == #[trigger] entered(s0, threshold, thread_key(thread), h);
    let start = clock_now();
    let ghost given = *logger;
    let rv = func(logger);
    let ghost left = *logger;
    let elapsed: u128 = millis_since(&start);
    span_exit(logger, thread, id, elapsed);
    proof {
        assert(is_span_around(*old(logger), *final(logger), given, left, thread, h, elapsed));
    }
    rv
}

} // verus!
