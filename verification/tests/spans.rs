use tree_logger::event::{Fault, Level, LevelFilter, LoggingEvent, Signal};
use tree_logger::filter::{passes, suppressed, KeepAll, SlowerThan};
use tree_logger::logger::{fault_message, make_event, make_thread_tag, timing_signal, TreeLogger};
use tree_logger::profile::{profile_core, profile_core_with_level};
use tree_logger::registry::LoggingData;
use tree_logger::thread_state::ThreadState;

fn plain(level: Level, text: &str) -> LoggingEvent {
    make_event(level, "app".to_string(), None, text.to_string(), None, false, false, None)
}

fn header(text: &str, id: usize, quiet: bool) -> LoggingEvent {
    make_event(Level::Info, "app".to_string(), None, text.to_string(), Some(id), quiet, false, None)
}

#[test]
fn logging_works() {
    let mut logger = TreeLogger::new();
    profile_core(&mut logger, None, "test".to_string(), "tests/spans.rs".to_string(), || {}, false);
    profile_core_with_level(
        &mut logger,
        None,
        "test".to_string(),
        "tests/spans.rs".to_string(),
        || {},
        Level::Error,
        false,
    );
    let lines = logger.take_output();
    assert_eq!(lines.len(), 2);
    assert!(lines[0].starts_with("INFO  test: "));
    assert!(lines[1].starts_with("ERROR test: "));
    assert!(logger.take_faults().is_empty());
}

#[test]
fn test_module_levels_denylist() {
    let logger = TreeLogger::new().with_level(LevelFilter::Warn);
    assert_eq!(logger.max_level(), LevelFilter::Warn);
    assert!(logger.enabled(Level::Error));
    assert!(logger.enabled(Level::Warn));
    assert!(!logger.enabled(Level::Info));
    assert!(!logger.enabled(Level::Trace));
}

#[test]
fn level_filter_off_admits_nothing() {
    assert!(!LevelFilter::Off.allows(Level::Error));
    assert!(LevelFilter::Trace.allows(Level::Trace));
    assert!(LevelFilter::Info.allows(Level::Warn));
    assert!(!LevelFilter::Info.allows(Level::Debug));
    assert_eq!(Level::Debug.to_level_filter(), LevelFilter::Debug);
    assert_eq!(Level::Error.severity(), 1);
    assert_eq!(LevelFilter::Trace.threshold(), 5);
}

#[test]
fn standalone_warning_is_flushed_at_once() {
    let mut state = ThreadState::new();
    let r = state.dispatch(Signal::Event(plain(Level::Warn, "W")));
    assert_eq!(r.fault, None);
    let batch = r.batch.unwrap();
    assert_eq!(batch.len(), 1);
    assert_eq!(batch[0].indentation, 0);
    assert_eq!(batch[0].args, "W");
    assert!(batch[0].elapsed.is_none());
    assert!(state.events.is_empty());

    let mut logger = TreeLogger::new();
    logger.log(None, Signal::Event(plain(Level::Warn, "W")));
    let lines = logger.take_output();
    assert_eq!(lines.len(), 1);
    assert!(lines[0].starts_with("WARN  W"));
}

#[test]
fn nested_spans_flush_as_one_batch() {
    let mut state = ThreadState::new();
    let signals: Vec<Signal> = vec![
        Signal::Open,
        Signal::Event(header("A", 0, false)),
        Signal::Open,
        Signal::Event(plain(Level::Info, "x")),
        Signal::Event(header("B", 1, false)),
        Signal::Open,
        Signal::Event(plain(Level::Info, "y")),
        Signal::Close,
        Signal::PatchTiming { id: 1, elapsed: 7 },
        Signal::Close,
        Signal::PatchTiming { id: 0, elapsed: 9 },
    ];
    for signal in signals {
        let r = state.dispatch(signal);
        assert!(r.batch.is_none());
        assert_eq!(r.fault, None);
    }
    assert_eq!(state.indentation, 1);
    let r = state.dispatch(Signal::Close);
    let batch = r.batch.unwrap();
    assert_eq!(batch.len(), 4);
    assert_eq!(batch[0].args, "A");
    assert_eq!(batch[0].indentation, 1);
    assert_eq!(batch[0].elapsed, Some(9));
    assert_eq!(batch[1].args, "x");
    assert_eq!(batch[1].indentation, 2);
    assert_eq!(batch[1].elapsed, None);
    assert_eq!(batch[2].args, "B");
    assert_eq!(batch[2].indentation, 2);
    assert_eq!(batch[2].elapsed, Some(7));
    assert_eq!(batch[3].args, "y");
    assert_eq!(batch[3].indentation, 3);
    assert_eq!(batch[3].elapsed, None);
    assert_eq!(state.indentation, 0);
    assert!(state.events.is_empty());
    assert_eq!(state.next_id, 4);
}

#[test]
fn span_inside_span_is_two_levels_deeper() {
    let mut state = ThreadState::new();
    let signals: Vec<Signal> = vec![
        Signal::Open,
        Signal::Event(header("A", 0, false)),
        Signal::Open,
        Signal::Event(plain(Level::Info, "x")),
        Signal::Open,
        Signal::Event(header("B", 1, false)),
        Signal::Open,
        Signal::Event(plain(Level::Info, "y")),
        Signal::Close,
        Signal::PatchTiming { id: 1, elapsed: 7 },
        Signal::Close,
        Signal::Close,
        Signal::PatchTiming { id: 0, elapsed: 9 },
    ];
    for signal in signals {
        let r = state.dispatch(signal);
        assert!(r.batch.is_none());
        assert_eq!(r.fault, None);
    }
    let batch = state.dispatch(Signal::Close).batch.unwrap();
    let depths: Vec<usize> = batch.iter().map(|e| e.indentation).collect();
    assert_eq!(depths, vec![1, 2, 3, 4]);
    let times: Vec<Option<u128>> = batch.iter().map(|e| e.elapsed).collect();
    assert_eq!(times, vec![Some(9), None, Some(7), None]);
}

#[test]
fn threads_keep_their_own_batches() {
    let mut data = LoggingData::new();
    assert!(data.dispatch("a", Signal::Open).batch.is_none());
    assert!(data.dispatch("b", Signal::Open).batch.is_none());
    assert!(data.dispatch("a", Signal::Event(header("A", 0, false))).batch.is_none());
    assert!(data.dispatch("b", Signal::Event(header("B", 1, false))).batch.is_none());
    assert!(data.dispatch("b", Signal::Event(plain(Level::Info, "b1"))).batch.is_none());
    assert!(data.dispatch("a", Signal::Event(plain(Level::Info, "a1"))).batch.is_none());
    assert_eq!(data.dispatch("a", Signal::PatchTiming { id: 0, elapsed: 3 }).fault, None);
    assert_eq!(
        data.dispatch("a", Signal::PatchTiming { id: 1, elapsed: 3 }).fault,
        Some(Fault::UnmatchedPatch)
    );
    let first = data.dispatch("b", Signal::Close).batch.unwrap();
    assert_eq!(first.len(), 2);
    assert_eq!(first[0].args, "B");
    assert_eq!(first[0].elapsed, None);
    assert_eq!(first[1].args, "b1");
    let second = data.dispatch("a", Signal::Close).batch.unwrap();
    assert_eq!(second.len(), 2);
    assert_eq!(second[0].args, "A");
    assert_eq!(second[0].elapsed, Some(3));
    assert_eq!(second[1].args, "a1");
    let again = data.dispatch("a", Signal::Event(plain(Level::Info, "later"))).batch.unwrap();
    assert_eq!(again.len(), 1);
    assert_eq!(again[0].args, "later");
}

#[test]
fn close_without_open_is_reported_and_clamped() {
    let mut state = ThreadState::new();
    assert!(!state.close());
    assert_eq!(state.indentation, 0);
    let r = state.dispatch(Signal::Close);
    assert_eq!(r.fault, Some(Fault::IndentationUnderflow));
    assert_eq!(state.indentation, 0);
    state.open();
    assert_eq!(state.indentation, 1);
    assert!(state.close());
    assert_eq!(fault_message(Fault::IndentationUnderflow), "Span closed without a matching open!");
    assert_eq!(fault_message(Fault::UnmatchedPatch), "Couldn't set time!");
}

#[test]
fn depth_saturates_at_the_largest_value() {
    let mut state = ThreadState { indentation: usize::MAX, next_id: usize::MAX, events: Vec::new() };
    state.open();
    assert_eq!(state.indentation, usize::MAX);
    assert_eq!(state.allocate_id(), usize::MAX);
    assert_eq!(state.next_id, 0);
}

#[test]
fn patch_sets_only_the_first_match() {
    let mut state = ThreadState::new();
    state.open();
    assert_eq!(state.record(header("one", 5, false)), 0);
    assert_eq!(state.record(plain(Level::Info, "mid")), 1);
    assert_eq!(state.record(header("two", 5, false)), 2);
    assert!(!state.patch(6, 10));
    assert!(state.events.iter().all(|e| e.elapsed.is_none()));
    assert!(state.patch(5, 10));
    assert_eq!(state.events[0].elapsed, Some(10));
    assert_eq!(state.events[1].elapsed, None);
    assert_eq!(state.events[2].elapsed, None);
    assert!(!state.patch(5, 20));
    assert_eq!(state.events[0].elapsed, Some(10));
    assert_eq!(state.events[2].elapsed, None);
    let r = state.dispatch(Signal::PatchTiming { id: 5, elapsed: 30 });
    assert_eq!(r.fault, Some(Fault::UnmatchedPatch));
    assert_eq!(state.events[0].elapsed, Some(10));
    assert!(state.take_batch().is_none());
    assert_eq!(state.events.len(), 3);
}

#[test]
fn unmatched_patch_is_queued_as_fault() {
    let mut logger = TreeLogger::new();
    logger.log(None, Signal::PatchTiming { id: 3, elapsed: 1 });
    assert_eq!(logger.take_faults(), vec![Fault::UnmatchedPatch]);
    assert!(logger.take_faults().is_empty());
    logger.log(None, Signal::Close);
    assert_eq!(logger.take_faults(), vec![Fault::IndentationUnderflow]);
    assert!(logger.take_output().is_empty());
}

#[test]
fn malformed_timing_is_no_signal() {
    assert!(timing_signal(None, Some(4)).is_none());
    assert!(timing_signal(Some(1), None).is_none());
    assert!(matches!(
        timing_signal(Some(1), Some(4)),
        Some(Signal::PatchTiming { id: 1, elapsed: 4 })
    ));
}

#[test]
fn quiet_batches_are_suppressed_only_when_trivial() {
    let mut quiet = header("q", 0, true);
    assert!(suppressed(&vec![quiet.clone()]));
    quiet.elapsed = Some(0);
    assert!(suppressed(&vec![quiet.clone()]));
    assert!(!passes(&vec![quiet.clone()], &KeepAll));
    quiet.elapsed = Some(1);
    assert!(!suppressed(&vec![quiet.clone()]));
    assert!(passes(&vec![quiet.clone()], &KeepAll));
    let mut loud = header("l", 0, false);
    loud.elapsed = Some(0);
    assert!(!suppressed(&vec![loud.clone()]));
    quiet.elapsed = Some(0);
    assert!(!suppressed(&vec![quiet.clone(), loud]));
    assert!(!suppressed(&Vec::new()));
    assert!(!passes(&Vec::new(), &KeepAll));
}

#[test]
fn quiet_instant_span_leaves_no_output() {
    let mut logger = TreeLogger::new();
    logger.log(None, Signal::Open);
    logger.log(None, Signal::Event(header("fast", 0, true)));
    logger.log(None, Signal::PatchTiming { id: 0, elapsed: 0 });
    logger.log(None, Signal::Close);
    assert!(logger.take_output().is_empty());
    logger.log(None, Signal::Open);
    logger.log(None, Signal::Event(header("slow", 1, true)));
    logger.log(None, Signal::PatchTiming { id: 1, elapsed: 2 });
    logger.log(None, Signal::Close);
    assert_eq!(logger.take_output().len(), 1);
}

#[test]
fn events_below_the_threshold_change_nothing() {
    let mut logger = TreeLogger::new().with_level(LevelFilter::Warn);
    logger.log(None, Signal::Open);
    logger.log(None, Signal::Event(plain(Level::Info, "hidden")));
    logger.log(None, Signal::Event(plain(Level::Error, "shown")));
    logger.log(None, Signal::Close);
    let lines = logger.take_output();
    assert_eq!(lines.len(), 1);
    assert!(lines[0].starts_with("ERROR shown"));
}

#[test]
fn span_ids_count_up() {
    let mut logger = TreeLogger::new();
    assert_eq!(logger.allocate_span_id(), 0);
    assert_eq!(logger.allocate_span_id(), 1);
    logger.next_span_id = usize::MAX;
    assert_eq!(logger.allocate_span_id(), usize::MAX);
    assert_eq!(logger.allocate_span_id(), 0);
}

#[test]
fn span_below_threshold_reports_unmatched_patch() {
    let mut logger = TreeLogger::new().with_level(LevelFilter::Error);
    let value: u32 = profile_core(
        &mut logger,
        Some("worker"),
        "hidden".to_string(),
        "here".to_string(),
        || 42u32,
        false,
    );
    assert_eq!(value, 42);
    assert_eq!(logger.take_faults(), vec![Fault::UnmatchedPatch]);
    assert!(logger.take_output().is_empty());
    assert_eq!(logger.next_span_id, 1);
}

#[test]
fn span_filter_hides_fast_spans() {
    let mut logger = TreeLogger::new().with_filter_fn(SlowerThan { millis: 5 });
    logger.log(None, Signal::Open);
    logger.log(None, Signal::Event(header("quick", 0, false)));
    logger.log(None, Signal::Event(plain(Level::Info, "inside")));
    logger.log(None, Signal::PatchTiming { id: 0, elapsed: 5 });
    logger.log(None, Signal::Close);
    assert!(logger.take_output().is_empty());
    logger.log(None, Signal::Open);
    logger.log(None, Signal::Event(header("long", 1, false)));
    logger.log(None, Signal::Event(plain(Level::Info, "inside")));
    logger.log(None, Signal::PatchTiming { id: 1, elapsed: 6 });
    logger.log(None, Signal::Close);
    assert_eq!(logger.take_output().len(), 2);
}

#[test]
fn thread_tags_and_targets() {
    assert_eq!(make_thread_tag(true, Some("worker")), " @worker");
    assert_eq!(make_thread_tag(true, Some("main")), "");
    assert_eq!(make_thread_tag(true, None), "");
    assert_eq!(make_thread_tag(false, Some("worker")), "");
    let e = make_event(
        Level::Debug,
        String::new(),
        Some("crate::module".to_string()),
        "m".to_string(),
        Some(4),
        true,
        true,
        Some("io"),
    );
    assert_eq!(e.target, "crate::module");
    assert_eq!(e.thread, " @io");
    assert_eq!(e.id, Some(4));
    assert!(e.quiet);
    assert_eq!(e.level, Level::Debug);
    assert_eq!(e.indentation, 0);
    assert_eq!(e.elapsed, None);
    let f = make_event(Level::Info, "t".to_string(), Some("p".to_string()), "m".to_string(), None, false, true, None);
    assert_eq!(f.target, "t");
    let g = make_event(Level::Info, String::new(), None, "m".to_string(), None, false, true, None);
    assert_eq!(g.target, "");
}

#[test]
fn builders_set_one_field_each() {
    let logger = TreeLogger::new();
    assert_eq!(logger.max_level(), LevelFilter::Trace);
    assert!(!logger.threads_enabled);
    assert!(!logger.colors_enabled);
    assert!(!logger.use_stderr);
    let logger = logger.with_threads(true);
    assert!(logger.threads_enabled);
    assert!(!logger.colors_enabled);
    let logger = logger.with_colors(true).with_level(LevelFilter::Debug);
    assert!(logger.colors_enabled);
    assert!(logger.threads_enabled);
    assert_eq!(logger.max_level(), LevelFilter::Debug);
}

#[test]
fn interleaved_threads_produce_contiguous_batches() {
    let mut logger = TreeLogger::new();
    let left: usize = tree_logger::profile::span_enter(
        &mut logger,
        Some("left"),
        "L".to_string(),
        "here".to_string(),
        Level::Info,
        false,
    );
    let right: usize = tree_logger::profile::span_enter(
        &mut logger,
        Some("right"),
        "R".to_string(),
        "here".to_string(),
        Level::Info,
        false,
    );
    logger.log(Some("left"), Signal::Event(plain(Level::Info, "l1")));
    logger.log(Some("right"), Signal::Event(plain(Level::Info, "r1")));
    logger.log(Some("left"), Signal::Event(plain(Level::Info, "l2")));
    assert!(logger.take_output().is_empty());
    tree_logger::profile::span_exit(&mut logger, Some("right"), right, 2);
    let lines = logger.take_output();
    assert_eq!(lines.len(), 2);
    assert!(lines[0].starts_with("INFO  R: "));
    assert!(lines[1].starts_with("INFO    r1"));
    tree_logger::profile::span_exit(&mut logger, Some("left"), left, 3);
    let lines = logger.take_output();
    assert_eq!(lines.len(), 3);
    assert!(lines[0].starts_with("INFO  L: "));
    assert!(lines[1].starts_with("INFO    l1"));
    assert!(lines[2].starts_with("INFO    l2"));
    assert!(logger.take_faults().is_empty());
}
