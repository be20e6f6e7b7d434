use tree_logger::control::{decode, read_id, read_quiet, read_time, ControlFields, RawRecord};
use tree_logger::event::{Fault, Level, Signal};
use tree_logger::logger::TreeLogger;
use tree_logger::filter::KeepAll;
use tree_logger::profile::{profile_with, span_enter, span_exit};
use tree_logger::text::parse_decimal;

fn no_control() -> ControlFields {
    ControlFields { increment: false, decrement: false, set_time: false, id: None, quiet: None, time: None }
}

fn record(level: Level, text: &str, control: ControlFields) -> RawRecord {
    RawRecord { level, target: "app".to_string(), module: None, args: text.to_string(), control }
}

#[test]
fn decimal_numbers_are_read() {
    assert_eq!(parse_decimal("0", 10), Some(0));
    assert_eq!(parse_decimal("007", 10), Some(7));
    assert_eq!(parse_decimal("+42", 100), Some(42));
    assert_eq!(parse_decimal("10", 10), Some(10));
    assert_eq!(parse_decimal("11", 10), None);
    assert_eq!(parse_decimal("", 10), None);
    assert_eq!(parse_decimal("+", 10), None);
    assert_eq!(parse_decimal("-1", 10), None);
    assert_eq!(parse_decimal("1x", 10), None);
    assert_eq!(parse_decimal(" 1", 10), None);
    assert_eq!(parse_decimal("++1", 10), None);
    assert_eq!(
        parse_decimal("340282366920938463463374607431768211455", u128::MAX),
        Some(u128::MAX)
    );
    assert_eq!(parse_decimal("340282366920938463463374607431768211456", u128::MAX), None);
    assert_eq!(parse_decimal("99999999999999999999999999999999999999999", u128::MAX), None);
}

#[test]
fn control_values_are_read() {
    assert_eq!(read_id(&Some("12".to_string())), Some(12));
    assert_eq!(read_id(&Some("18446744073709551616000".to_string())), None);
    assert_eq!(read_id(&Some("abc".to_string())), None);
    assert_eq!(read_id(&None), None);
    assert_eq!(read_time(&Some("1500".to_string())), Some(1500));
    assert_eq!(read_time(&Some("1.5".to_string())), None);
    assert!(read_quiet(&Some("1".to_string())));
    assert!(!read_quiet(&Some("0".to_string())));
    assert!(!read_quiet(&Some("true".to_string())));
    assert!(!read_quiet(&None));
}

#[test]
fn control_signals_are_decoded_in_order_of_precedence() {
    let mut c = no_control();
    c.increment = true;
    c.decrement = true;
    c.set_time = true;
    assert!(matches!(decode(record(Level::Info, "", c), false, None), Some(Signal::Open)));
    let mut c = no_control();
    c.decrement = true;
    c.set_time = true;
    assert!(matches!(decode(record(Level::Info, "", c), false, None), Some(Signal::Close)));
    let mut c = no_control();
    c.set_time = true;
    c.id = Some("3".to_string());
    c.time = Some("250".to_string());
    assert!(matches!(
        decode(record(Level::Info, "", c), false, None),
        Some(Signal::PatchTiming { id: 3, elapsed: 250 })
    ));
}

#[test]
fn malformed_timing_record_asks_for_nothing() {
    let mut c = no_control();
    c.set_time = true;
    c.id = Some("3".to_string());
    c.time = Some("soon".to_string());
    assert!(decode(record(Level::Info, "", c.clone()), false, None).is_none());
    c.time = Some("5".to_string());
    c.id = None;
    assert!(decode(record(Level::Info, "", c.clone()), false, None).is_none());

    let mut logger = TreeLogger::new();
    let mut open = no_control();
    open.increment = true;
    logger.log_record(None, record(Level::Info, "", open));
    let mut head = no_control();
    head.id = Some("3".to_string());
    logger.log_record(None, record(Level::Info, "span", head));
    logger.log_record(None, record(Level::Info, "", c));
    assert!(logger.take_faults().is_empty());
    let mut close = no_control();
    close.decrement = true;
    logger.log_record(None, record(Level::Info, "", close));
    let lines = logger.take_output();
    assert_eq!(lines.len(), 1);
    assert!(lines[0].starts_with("INFO  span"));
    assert!(!lines[0].contains("ms"));
}

#[test]
fn plain_record_becomes_an_event() {
    let mut c = no_control();
    c.id = Some("9".to_string());
    c.quiet = Some("1".to_string());
    let signal = decode(record(Level::Warn, "hello", c), true, Some("net"));
    match signal {
        Some(Signal::Event(e)) => {
            assert_eq!(e.id, Some(9));
            assert!(e.quiet);
            assert_eq!(e.level, Level::Warn);
            assert_eq!(e.args, "hello");
            assert_eq!(e.target, "app");
            assert_eq!(e.thread, " @net");
            assert_eq!(e.elapsed, None);
            assert_eq!(e.indentation, 0);
        }
        _ => panic!("a plain record is an event"),
    }
    let signal = decode(record(Level::Warn, "hello", no_control()), true, Some("main"));
    match signal {
        Some(Signal::Event(e)) => {
            assert_eq!(e.id, None);
            assert!(!e.quiet);
            assert_eq!(e.thread, "");
        }
        _ => panic!("a plain record is an event"),
    }
}

#[test]
fn spans_nest_through_enter_and_exit() {
    let mut logger = TreeLogger::new();
    let outer: usize = span_enter(&mut logger, None, "A".to_string(), "here".to_string(), Level::Info, false);
    logger.log_record(None, record(Level::Info, "x", no_control()));
    let inner: usize = span_enter(&mut logger, None, "B".to_string(), "here".to_string(), Level::Debug, false);
    logger.log_record(None, record(Level::Info, "y", no_control()));
    assert!(logger.take_output().is_empty());
    span_exit(&mut logger, None, inner, 120);
    assert!(logger.take_output().is_empty());
    span_exit(&mut logger, None, outer, 130);
    assert_eq!(outer, 0);
    assert_eq!(inner, 1);
    assert!(logger.take_faults().is_empty());
    let lines = logger.take_output();
    assert_eq!(lines.len(), 4);
    assert!(lines[0].starts_with("INFO  A: \u{1b}[31m130ms\u{1b}[0m"));
    assert!(lines[1].starts_with("INFO    x"));
    assert!(lines[2].starts_with("DEBUG     B: \u{1b}[31m120ms\u{1b}[0m"));
    assert!(lines[3].starts_with("INFO        y"));
}

#[test]
fn exit_without_enter_reports_its_faults() {
    let mut logger = TreeLogger::new();
    span_exit(&mut logger, Some("w"), 4, 1);
    assert_eq!(
        logger.take_faults(),
        vec![Fault::IndentationUnderflow, Fault::UnmatchedPatch, Fault::IndentationUnderflow]
    );
}

#[test]
fn work_inside_a_span_can_log_and_nest() {
    let mut logger = TreeLogger::new();
    let answer: u32 = profile_with(
        &mut logger,
        None,
        "A".to_string(),
        "here".to_string(),
        |inner: &mut TreeLogger<KeepAll>| {
            inner.log_record(None, record(Level::Info, "x", no_control()));
            profile_with(
                inner,
                None,
                "B".to_string(),
                "here".to_string(),
                |deepest: &mut TreeLogger<KeepAll>| {
                    deepest.log_record(None, record(Level::Info, "y", no_control()));
                    41u32
                },
                Level::Info,
                false,
            ) + 1
        },
        Level::Info,
        false,
    );
    assert_eq!(answer, 42);
    assert!(logger.take_faults().is_empty());
    let lines = logger.take_output();
    assert_eq!(lines.len(), 4);
    assert!(lines[0].starts_with("INFO  A: "));
    assert!(lines[1].starts_with("INFO    x"));
    assert!(lines[2].starts_with("INFO      B: "));
    assert!(lines[3].starts_with("INFO        y"));
    assert_eq!(logger.next_span_id, 2);
}
