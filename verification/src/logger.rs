//! The logger: its settings, the thread states it owns, and the single entry
//! point through which every signal passes.

use vstd::prelude::*;
use vstd::string::StringExecFns;
use crate::event::{Fault, Level, LevelFilter, LoggingEvent, Signal};
use crate::filter::{visible, EventFilter, KeepAll};
use crate::registry::{state_for, LoggingData};
use crate::render::{are_lines_of, print_data};
use crate::thread_state::ThreadView;

verus! {

/// The key under which the state of a thread is kept: its name, or
/// `default` for a thread without one.
pub open spec fn thread_key(thread: Option<&str>) -> Seq<char> {
    match thread {
        Some(name) => name@,
        None => "default"@,
    }
}

/// The tag by which a line names its thread: empty for the main thread, for
/// a thread without a name, and when threads are not shown.
pub open spec fn thread_tag(show: bool, thread: Option<&str>) -> Seq<char> {
    match thread {
        Some(name) => if show && name@ != "main"@ {
            " @"@ + name@
        } else {
            Seq::empty()
        },
        None => Seq::empty(),
    }
}

/// The thread states after `signal` from the thread kept under `key`, for a
/// logger that buffers the levels that `threshold` admits.
pub open spec fn states_step(
    states: Map<Seq<char>, ThreadView>,
    threshold: LevelFilter,
    key: Seq<char>,
    signal: Signal,
) -> Map<Seq<char>, ThreadView> {
    let acted = match signal {
        Signal::Event(event) => threshold.admits(event.level),
        _ => true,
    };
    if acted {
        states.insert(key, state_for(states, key).after(signal))
    } else {
        states
    }
}

/// The batch that `signal` from the thread kept under `key` flushes; empty
/// when none leaves.
pub open spec fn batch_step(
    states: Map<Seq<char>, ThreadView>,
    threshold: LevelFilter,
    key: Seq<char>,
    signal: Signal,
) -> Seq<LoggingEvent> {
    let acted = match signal {
        Signal::Event(event) => threshold.admits(event.level),
        _ => true,
    };
    if acted {
        match state_for(states, key).applied(signal).batch() {
            Some(batch) => batch,
            None => Seq::empty(),
        }
    } else {
        Seq::empty()
    }
}

/// The fault that `signal` from the thread kept under `key` runs into.
pub open spec fn fault_step(
    states: Map<Seq<char>, ThreadView>,
    threshold: LevelFilter,
    key: Seq<char>,
    signal: Signal,
) -> Option<Fault> {
    let acted = match signal {
        Signal::Event(event) => threshold.admits(event.level),
        _ => true,
    };
    if acted {
        state_for(states, key).fault_of(signal)
    } else {
        None
    }
}

/// The faults of one dispatch, as they are appended to the fault list.
pub open spec fn fault_entries(fault: Option<Fault>) -> Seq<Fault> {
    match fault {
        Some(f) => seq![f],
        None => Seq::empty(),
    }
}

/// The text with which a fault is reported.
pub open spec fn fault_text(fault: Fault) -> Seq<char> {
    match fault {
        Fault::IndentationUnderflow => "Span closed without a matching open!"@,
        Fault::UnmatchedPatch => "Couldn't set time!"@,
    }
}

/// The report line of a fault.
pub fn fault_message(fault: Fault) -> (r: String)
    ensures
        r@ == fault_text(fault),
{
    match fault {
        Fault::IndentationUnderflow => String::from_str("Span closed without a matching open!"),
        Fault::UnmatchedPatch => String::from_str("Couldn't set time!"),
    }
}

/// The display tag of a thread.
pub fn make_thread_tag(show: bool, thread: Option<&str>) -> (r: String)
    ensures
        r@ == thread_tag(show, thread),
{
    match thread {
        Some(name) => {
            let owned = String::from_str(name);
            let main = String::from_str("main");
            if show && !(owned == main) {
                let mut tag = String::from_str(" @");
                tag.append(name);
                tag
            } else {
                String::new()
            }
        },
        None => String::new(),
    }
}

/// Builds the event of a plain record: the target falls back to the module
/// path when it is empty, the thread tag follows the logger's setting, and
/// depth and duration are left for the buffer and the time patcher to fill.
pub fn make_event(
    level: Level,
    target: String,
    module: Option<String>,
    args: String,
    id: Option<usize>,
    quiet: bool,
    show_thread: bool,
    thread: Option<&str>,
) -> (event: LoggingEvent)
    ensures
        event.id == id,
        event.quiet == quiet,
        event.level == level,
        event.indentation == 0,
        event.elapsed is None,
        event.args == args,
        event.target@ == (if target@.len() > 0 {
            target@
        } else {
            match module {
                Some(path) => path@,
                None => Seq::empty(),
            }
        }),
        event.thread@ == thread_tag(show_thread, thread),
{
    let empty = String::new();
    proof {
        if target@.len() == 0 {
            assert(target@ =~= empty@);
        }
    }
    let chosen = if !(target == empty) {
        target
    } else {
        match module {
            Some(path) => path,
            None => String::new(),
        }
    };
    LoggingEvent {
        id,
        indentation: 0,
        elapsed: None,
        level,
        target: chosen,
        args,
        thread: make_thread_tag(show_thread, thread),
        quiet,
    }
}

/// The signal of a timing record: a patch when both fields could be read,
/// nothing when either is missing or malformed.
pub fn timing_signal(id: Option<usize>, elapsed: Option<u128>) -> (r: Option<Signal>)
    ensures
        r == (match (id, elapsed) {
            (Some(i), Some(e)) => Some(Signal::PatchTiming { id: i, elapsed: e }),
            _ => None,
        }),
{
    match (id, elapsed) {
        (Some(i), Some(e)) => Some(Signal::PatchTiming { id: i, elapsed: e }),
        _ => None,
    }
}

/// A logger that groups events into trees, one per outermost span and thread.
pub struct TreeLogger<P: EventFilter> {
    /// The least severe level that is buffered.
    pub default_level: LevelFilter,
    /// Whether lines name the thread they come from.
    pub threads_enabled: bool,
    /// Whether severity labels are coloured.
    pub colors_enabled: bool,
    /// Whether lines go to the diagnostic stream instead of standard output.
    pub use_stderr: bool,
    /// The keep-or-drop decision applied to every flushed batch.
    pub filter: P,
    /// The state of every thread seen so far.
    pub data: LoggingData,
    /// The next span correlation id.
    pub next_span_id: usize,
    /// Rendered lines that wait to be written, oldest first.
    pub output: Vec<String>,
    /// Faults that wait to be reported, oldest first.
    pub faults: Vec<Fault>,
}

impl TreeLogger<KeepAll> {
    /// A logger that lets every level through, shows neither threads nor
    /// colours, writes to standard output and keeps every event.
    pub fn new() -> (r: TreeLogger<KeepAll>)
        ensures
            r.default_level == LevelFilter::Trace,
            !r.threads_enabled,
            !r.colors_enabled,
            !r.use_stderr,
            r.data@ == crate::registry::no_threads(),
            r.next_span_id == 0,
            r.output@.len() == 0,
            r.faults@.len() == 0,
    {
        TreeLogger {
            default_level: LevelFilter::Trace,
            threads_enabled: false,
            colors_enabled: false,
            use_stderr: false,
            filter: KeepAll,
            data: LoggingData::new(),
            next_span_id: 0,
            output: Vec::new(),
            faults: Vec::new(),
        }
    }
}

impl<P: EventFilter> TreeLogger<P> {
    /// Everything but the thread states and the two queues is the same.
    pub open spec fn same_settings(self, other: Self) -> bool {
        &&& self.default_level == other.default_level
        &&& self.threads_enabled == other.threads_enabled
        &&& self.colors_enabled == other.colors_enabled
        &&& self.use_stderr == other.use_stderr
        &&& self.filter == other.filter
        &&& self.next_span_id == other.next_span_id
    }

    /// Whether `signal` is acted on: an event must pass the level threshold,
    /// control signals always do.
    pub open spec fn accepts(self, signal: Signal) -> bool {
        match signal {
            Signal::Event(event) => self.default_level.admits(event.level),
            _ => true,
        }
    }

    /// The state of `thread` before the signal.
    pub open spec fn state_of(self, thread: Option<&str>) -> ThreadView {
        state_for(self.data@, thread_key(thread))
    }

    /// The thread states after `signal` from `thread`.
    pub open spec fn states_after(self, thread: Option<&str>, signal: Signal) -> Map<
        Seq<char>,
        ThreadView,
    > {
        states_step(self.data@, self.default_level, thread_key(thread), signal)
    }

    /// The batch that `signal` from `thread` flushes; empty when none leaves.
    pub open spec fn batch_after(self, thread: Option<&str>, signal: Signal) -> Seq<LoggingEvent> {
        batch_step(self.data@, self.default_level, thread_key(thread), signal)
    }

    /// The fault that `signal` from `thread` runs into.
    pub open spec fn fault_after(self, thread: Option<&str>, signal: Signal) -> Option<Fault> {
        fault_step(self.data@, self.default_level, thread_key(thread), signal)
    }

    /// The lines that were appended to the output since it was `before` are
    /// the rendering of `batch` for some terminal width.
    pub open spec fn appended_lines_render(
        self,
        before: Seq<String>,
        batch: Seq<LoggingEvent>,
    ) -> bool {
        &&& before.len() <= self.output@.len()
        &&& self.output@.take(before.len() as int) == before
        &&& exists|terminal: nat| #[trigger]
            are_lines_of(
                self.output@.skip(before.len() as int),
                visible(batch, self.filter),
                self.colors_enabled,
                terminal,
            )
    }

    /// Where the lines appended since `before` render an empty batch, none
    /// was appended.
    pub proof fn lemma_nothing_appended(self, before: Seq<String>)
        requires
            self.appended_lines_render(before, Seq::empty()),
        ensures
            self.output@ == before,
    {
        assert(self.output@.skip(before.len() as int).len() == 0);
        assert(self.output@ =~= self.output@.take(before.len() as int));
    }

    /// Replaces the filter.
    pub fn with_filter_fn<Q: EventFilter>(self, filter_fn: Q) -> (r: TreeLogger<Q>)
        ensures
            r.filter == filter_fn,
            r.default_level == self.default_level,
            r.threads_enabled == self.threads_enabled,
            r.colors_enabled == self.colors_enabled,
            r.use_stderr == self.use_stderr,
            r.data == self.data,
            r.next_span_id == self.next_span_id,
            r.output == self.output,
            r.faults == self.faults,
    {
        TreeLogger {
            default_level: self.default_level,
            threads_enabled: self.threads_enabled,
            colors_enabled: self.colors_enabled,
            use_stderr: self.use_stderr,
            filter: filter_fn,
            data: self.data,
            next_span_id: self.next_span_id,
            output: self.output,
            faults: self.faults,
        }
    }

    /// Sets the least severe level that is buffered.
    pub fn with_level(self, level: LevelFilter) -> (r: Self)
        ensures
            r == (TreeLogger { default_level: level, ..self }),
    {
        let mut r = self;
        r.default_level = level;
        r
    }

    /// Sets whether lines name their thread.
    pub fn with_threads(self, enable_threads: bool) -> (r: Self)
        ensures
            r == (TreeLogger { threads_enabled: enable_threads, ..self }),
    {
        let mut r = self;
        r.threads_enabled = enable_threads;
        r
    }

    /// Sets whether severity labels are coloured.
    pub fn with_colors(self, enable_colors: bool) -> (r: Self)
        ensures
            r == (TreeLogger { colors_enabled: enable_colors, ..self }),
    {
        let mut r = self;
        r.colors_enabled = enable_colors;
        r
    }

    /// The least severe level that is buffered.
    pub fn max_level(&self) -> (r: LevelFilter)
        ensures
            r == self.default_level,
    {
        self.default_level
    }

    /// Whether events of severity `level` are buffered.
    pub fn enabled(&self, level: Level) -> (r: bool)
        ensures
            r == self.default_level.admits(level),
    {
        self.default_level.allows(level)
    }

    /// Hands out the next span correlation id; ids start over after the largest.
    pub fn allocate_span_id(&mut self) -> (id: usize)
        ensures
            id == old(self).next_span_id,
            final(self).next_span_id == crate::thread_state::next_sequence(id),
            *final(self) == (TreeLogger { next_span_id: final(self).next_span_id, ..*old(self) }),
    {
        let id: usize = self.next_span_id;
        self.next_span_id = if id < usize::MAX { id + 1 } else { 0 };
        id
    }

    /// Takes the rendered lines that wait to be written.
    pub fn take_output(&mut self) -> (lines: Vec<String>)
        ensures
            lines@ == old(self).output@,
            final(self).output@.len() == 0,
            *final(self) == (TreeLogger { output: final(self).output, ..*old(self) }),
    {
        let mut lines: Vec<String> = Vec::new();
        std::mem::swap(&mut self.output, &mut lines);
        lines
    }

    /// Takes the faults that wait to be reported.
    pub fn take_faults(&mut self) -> (faults: Vec<Fault>)
        ensures
            faults@ == old(self).faults@,
            final(self).faults@.len() == 0,
            *final(self) == (TreeLogger { faults: final(self).faults, ..*old(self) }),
    {
        let mut faults: Vec<Fault> = Vec::new();
        std::mem::swap(&mut self.faults, &mut faults);
        faults
    }

    /// Receives one signal from `thread`. An event below the level threshold
    /// changes nothing. Any other signal is applied to the thread's state;
    /// a fault it runs into is queued, and when the thread's depth is zero
    /// afterwards its whole buffer is rendered and the lines are queued.
    pub fn log(&mut self, thread: Option<&str>, signal: Signal)
        requires
            signal matches Signal::Event(e) ==> e.elapsed is None,
        ensures
            final(self).same_settings(*old(self)),
            final(self).data@ == old(self).states_after(thread, signal),
            final(self).faults@ == old(self).faults@ + fault_entries(
                old(self).fault_after(thread, signal),
            ),
            final(self).appended_lines_render(
                old(self).output@,
                old(self).batch_after(thread, signal),
            ),
    {
        let accepted: bool = match &signal {
            Signal::Event(event) => self.enabled(event.level),
            _ => true,
        };
        if !accepted {
            proof {
                assert(self.output@.take(self.output@.len() as int) =~= self.output@);
                assert(are_lines_of(
                    self.output@.skip(self.output@.len() as int),
                    visible(Seq::<LoggingEvent>::empty(), self.filter),
                    self.colors_enabled,
                    0,
                ));
                assert(self.faults@ + fault_entries(None) =~= self.faults@);
            }
            return;
        }
        let name: &str = match thread {
            Some(name) => name,
            None => "default",
        };
        let dispatched = self.data.dispatch(name, signal);
        match dispatched.fault {
            Some(fault) => {
                self.faults.push(fault);
            },
            None => {
                assert(self.faults@ + fault_entries(None) =~= self.faults@);
            },
        }
        match dispatched.batch {
            Some(batch) => {
                let mut lines = print_data(&batch, &self.filter, self.colors_enabled);
                let ghost rendered = lines@;
                self.output.append(&mut lines);
                proof {
                    let before = old(self).output@;
                    assert(self.output@.take(before.len() as int) =~= before);
                    assert(self.output@.skip(before.len() as int) =~= rendered);
                    assert(batch@ == old(self).batch_after(thread, signal));
                    let t = choose|t: nat| #[trigger]
                        are_lines_of(
                            rendered,
                            visible(batch@, self.filter),
                            self.colors_enabled,
                            t,
                        );
                    assert(are_lines_of(
                        self.output@.skip(before.len() as int),
                        visible(old(self).batch_after(thread, signal), self.filter),
                        self.colors_enabled,
                        t,
                    ));
                }
            },
            None => {
                proof {
                    assert(self.output@.take(self.output@.len() as int) =~= self.output@);
                    assert(are_lines_of(
                        self.output@.skip(self.output@.len() as int),
                        visible(Seq::<LoggingEvent>::empty(), self.filter),
                        self.colors_enabled,
                        0,
                    ));
                }
            },
        }
    }
}

} // verus!
