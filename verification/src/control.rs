//! Records as the logging facade hands them over: an ordinary record whose
//! key-value fields may carry one of three control signals.

use vstd::prelude::*;
use crate::event::{Level, LoggingEvent, Signal};
use crate::filter::EventFilter;
use crate::logger::{fault_entries, make_event, thread_tag, timing_signal, TreeLogger};
use crate::text::{parse_decimal, parsed};

verus! {

/// The control fields of a record, as text where they carry a value.
#[derive(Clone, Debug)]
pub struct ControlFields {
    /// The record opens a span.
    pub increment: bool,
    /// The record closes a span.
    pub decrement: bool,
    /// The record patches the time of a span.
    pub set_time: bool,
    /// The span correlation id, in decimal.
    pub id: Option<String>,
    /// `1` for a quiet event.
    pub quiet: Option<String>,
    /// The elapsed time in milliseconds, in decimal.
    pub time: Option<String>,
}

/// One record of the logging facade.
#[derive(Clone, Debug)]
pub struct RawRecord {
    pub level: Level,
    pub target: String,
    pub module: Option<String>,
    pub args: String,
    pub control: ControlFields,
}

/// The correlation id that a field denotes; none when the field is missing
/// or is not a number that fits.
pub open spec fn id_of(field: Option<String>) -> Option<usize> {
    match field {
        Some(text) => match parsed(text@, usize::MAX as u128) {
            Some(value) => Some(value as usize),
            None => None,
        },
        None => None,
    }
}

/// The duration that a field denotes; none when the field is missing or is
/// not a number that fits.
pub open spec fn time_of(field: Option<String>) -> Option<u128> {
    match field {
        Some(text) => parsed(text@, u128::MAX),
        None => None,
    }
}

/// Whether a field marks its event as quiet: it denotes the number one.
pub open spec fn quiet_of(field: Option<String>) -> bool {
    id_of(field) == Some(1usize)
}

/// Reads a correlation id.
pub fn read_id(field: &Option<String>) -> (r: Option<usize>)
    ensures
        r == id_of(*field),
{
    match field {
        Some(text) => match parse_decimal(text.as_str(), usize::MAX as u128) {
            Some(value) => Some(value as usize),
            None => None,
        },
        None => None,
    }
}

/// Reads a duration.
pub fn read_time(field: &Option<String>) -> (r: Option<u128>)
    ensures
        r == time_of(*field),
{
    match field {
        Some(text) => parse_decimal(text.as_str(), u128::MAX),
        None => None,
    }
}

/// Reads the quiet flag.
pub fn read_quiet(field: &Option<String>) -> (r: bool)
    ensures
        r == quiet_of(*field),
{
    match read_id(field) {
        Some(value) => value == 1,
        None => false,
    }
}

/// `event` is the plain event that `record` stands for.
pub open spec fn is_event_of(
    event: LoggingEvent,
    record: RawRecord,
    show_thread: bool,
    thread: Option<&str>,
) -> bool {
    &&& event.id == id_of(record.control.id)
    &&& event.quiet == quiet_of(record.control.quiet)
    &&& event.level == record.level
    &&& event.indentation == 0
    &&& event.elapsed is None
    &&& event.args == record.args
    &&& event.target@ == (if record.target@.len() > 0 {
        record.target@
    } else {
        match record.module {
            Some(path) => path@,
            None => Seq::empty(),
        }
    })
    &&& event.thread@ == thread_tag(show_thread, thread)
}

/// `signal` is what `record` asks for. Opening a span takes precedence over
/// closing one, and that over a timing patch; a timing patch whose id or
/// time cannot be read asks for nothing; a record without any control signal
/// is a plain event.
pub open spec fn is_decoding(
    signal: Option<Signal>,
    record: RawRecord,
    show_thread: bool,
    thread: Option<&str>,
) -> bool {
    if record.control.increment {
        signal == Some(Signal::Open)
    } else if record.control.decrement {
        signal == Some(Signal::Close)
    } else if record.control.set_time {
        signal == (match (id_of(record.control.id), time_of(record.control.time)) {
            (Some(id), Some(elapsed)) => Some(Signal::PatchTiming { id, elapsed }),
            _ => None,
        })
    } else {
        signal matches Some(Signal::Event(event)) && is_event_of(
            event,
            record,
            show_thread,
            thread,
        )
    }
}

/// Turns a record into the signal it asks for.
pub fn decode(record: RawRecord, show_thread: bool, thread: Option<&str>) -> (signal: Option<
    Signal,
>)
    ensures
        is_decoding(signal, record, show_thread, thread),
{
    if record.control.increment {
        Some(Signal::Open)
    } else if record.control.decrement {
        Some(Signal::Close)
    } else if record.control.set_time {
        timing_signal(read_id(&record.control.id), read_time(&record.control.time))
    } else {
        let id = read_id(&record.control.id);
        let quiet = read_quiet(&record.control.quiet);
        Some(
            Signal::Event(
                make_event(
                    record.level,
                    record.target,
                    record.module,
                    record.args,
                    id,
                    quiet,
                    show_thread,
                    thread,
                ),
            ),
        )
    }
}

impl<P: EventFilter> TreeLogger<P> {
    /// Receives one record from `thread`: decodes it and acts on the signal
    /// it asks for. A record that asks for nothing changes nothing.
    pub fn log_record(&mut self, thread: Option<&str>, record: RawRecord)
        ensures
            final(self).same_settings(*old(self)),
            exists|signal: Option<Signal>| #[trigger]
                is_decoding(signal, record, old(self).threads_enabled, thread) && (match signal {
                    Some(s) => {
                        &&& final(self).data@ == old(self).states_after(thread, s)
                        &&& final(self).faults@ == old(self).faults@ + fault_entries(
                            old(self).fault_after(thread, s),
                        )
                        &&& final(self).appended_lines_render(
                            old(self).output@,
                            old(self).batch_after(thread, s),
                        )
                    },
                    None => {
                        &&& final(self).data@ == old(self).data@
                        &&& final(self).faults@ == old(self).faults@
                        &&& final(self).output@ == old(self).output@
                    },
                }),
    {
        let signal = decode(record, self.threads_enabled, thread);
        let ghost decoded = signal;
        match signal {
            Some(s) => {
                self.log(thread, s);
            },
            None => {},
        }
        assert(is_decoding(decoded, record, old(self).threads_enabled, thread));
    }
}

} // verus!
