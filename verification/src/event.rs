//! The data carried through the engine: severities, buffered events and the
//! signals that drive a thread's state.

use vstd::prelude::*;

verus! {

/// Severity of an event, most severe first.
#[derive(Clone, Copy, Debug, PartialEq, Eq, Structural)]
pub enum Level {
    Error,
    Warn,
    Info,
    Debug,
    Trace,
}

/// The least severe level that is still let through; `Off` lets nothing through.
#[derive(Clone, Copy, Debug, PartialEq, Eq, Structural)]
pub enum LevelFilter {
    Off,
    Error,
    Warn,
    Info,
    Debug,
    Trace,
}

impl Level {
    /// Position of the level on the severity scale: 1 for `Error`, 5 for `Trace`.
    pub open spec fn rank(self) -> int {
        match self {
            Level::Error => 1,
            Level::Warn => 2,
            Level::Info => 3,
            Level::Debug => 4,
            Level::Trace => 5,
        }
    }

    pub fn severity(self) -> (r: u8)
        ensures
            r == self.rank(),
    {
        match self {
            Level::Error => 1,
            Level::Warn => 2,
            Level::Info => 3,
            Level::Debug => 4,
            Level::Trace => 5,
        }
    }

    /// The filter that admits this level and every more severe one.
    pub fn to_level_filter(self) -> (r: LevelFilter)
        ensures
            r.rank() == self.rank(),
    {
        match self {
            Level::Error => LevelFilter::Error,
            Level::Warn => LevelFilter::Warn,
            Level::Info => LevelFilter::Info,
            Level::Debug => LevelFilter::Debug,
            Level::Trace => LevelFilter::Trace,
        }
    }
}

impl LevelFilter {
    /// Position of the threshold on the severity scale: 0 for `Off`, 5 for `Trace`.
    pub open spec fn rank(self) -> int {
        match self {
            LevelFilter::Off => 0,
            LevelFilter::Error => 1,
            LevelFilter::Warn => 2,
            LevelFilter::Info => 3,
            LevelFilter::Debug => 4,
            LevelFilter::Trace => 5,
        }
    }

    pub fn threshold(self) -> (r: u8)
        ensures
            r == self.rank(),
    {
        match self {
            LevelFilter::Off => 0,
            LevelFilter::Error => 1,
            LevelFilter::Warn => 2,
            LevelFilter::Info => 3,
            LevelFilter::Debug => 4,
            LevelFilter::Trace => 5,
        }
    }

    /// Whether an event of severity `level` passes this threshold.
    pub open spec fn admits(self, level: Level) -> bool {
        level.rank() <= self.rank()
    }

    pub fn allows(self, level: Level) -> (r: bool)
        ensures
            r == self.admits(level),
    {
        level.severity() <= self.threshold()
    }
}

/// One pending or emitted log line.
#[derive(Clone, Debug)]
pub struct LoggingEvent {
    /// Correlation id; present only on the header event of a span.
    pub id: Option<usize>,
    /// Depth of the thread at the moment the event was buffered.
    pub indentation: usize,
    /// Duration of the span in whole milliseconds, once its end is known.
    pub elapsed: Option<u128>,
    pub level: Level,
    /// Subsystem or location the event comes from.
    pub target: String,
    /// The message text.
    pub args: String,
    /// Display tag of the originating thread; empty when none is shown.
    pub thread: String,
    /// Eligible for suppression when the span turns out to be trivial.
    pub quiet: bool,
}

impl LoggingEvent {
    /// Only an event that carries a correlation id may carry a duration.
    pub open spec fn wf(self) -> bool {
        self.elapsed is Some ==> self.id is Some
    }

    /// The event as it is buffered at depth `depth`.
    pub open spec fn stamped(self, depth: usize) -> LoggingEvent {
        LoggingEvent { indentation: depth, ..self }
    }

    /// The event with its duration filled in.
    pub open spec fn timed(self, elapsed: u128) -> LoggingEvent {
        LoggingEvent { elapsed: Some(elapsed), ..self }
    }
}

/// What a thread tells the engine.
#[derive(Debug)]
pub enum Signal {
    /// A span begins: one level deeper.
    Open,
    /// A span ends: one level back.
    Close,
    /// The span whose header carries `id` took `elapsed` milliseconds.
    PatchTiming { id: usize, elapsed: u128 },
    /// A plain event to buffer.
    Event(LoggingEvent),
}

/// A logic fault that the engine absorbs and reports.
#[derive(Clone, Copy, Debug, PartialEq, Eq, Structural)]
pub enum Fault {
    /// A span was closed on a thread that had none open.
    IndentationUnderflow,
    /// No buffered event carries the id of a timing patch.
    UnmatchedPatch,
}

} // verus!
