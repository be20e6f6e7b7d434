//! The per-thread accumulator: a depth counter, a sequence counter and the
//! buffer of pending events, together with the rule that decides when the
//! buffer leaves as one batch.

use vstd::prelude::*;
use crate::event::{Fault, LoggingEvent, Signal};

verus! {

/// The first position in `events` whose correlation id is `id`.
pub open spec fn is_first_match(events: Seq<LoggingEvent>, id: usize, k: int) -> bool {
    &&& 0 <= k < events.len()
    &&& events[k].id == Some(id)
    &&& forall|j: int| 0 <= j < k ==> events[j].id != Some(id)
}

/// Whether some event in `events` carries the correlation id `id`.
pub open spec fn has_match(events: Seq<LoggingEvent>, id: usize) -> bool {
    exists|k: int| is_first_match(events, id, k)
}

/// The position of the first event in `events` that carries `id`.
pub open spec fn first_match(events: Seq<LoggingEvent>, id: usize) -> int {
    choose|k: int| is_first_match(events, id, k)
}

/// Whether a timing patch for `id` finds its event: the first event that
/// carries `id` exists and has no duration yet.
pub open spec fn can_patch(events: Seq<LoggingEvent>, id: usize) -> bool {
    has_match(events, id) && events[first_match(events, id)].elapsed is None
}

/// `events` after a timing patch: the first event that carries `id` gets the
/// duration, every other event stays as it is. Nothing changes when no event
/// carries `id`, or when the first that does has its duration already: a
/// duration is set once.
pub open spec fn patched(events: Seq<LoggingEvent>, id: usize, elapsed: u128) -> Seq<
    LoggingEvent,
> {
    if can_patch(events, id) {
        let k = first_match(events, id);
        events.update(k, events[k].timed(elapsed))
    } else {
        events
    }
}

/// Every buffered event that carries a duration also carries a correlation id.
pub open spec fn all_wf(events: Seq<LoggingEvent>) -> bool {
    forall|i: int| 0 <= i < events.len() ==> (#[trigger] events[i]).wf()
}

/// Two positions that are both the first match are the same position.
pub proof fn lemma_first_match_unique(events: Seq<LoggingEvent>, id: usize, a: int, b: int)
    requires
        is_first_match(events, id, a),
        is_first_match(events, id, b),
    ensures
        a == b,
{
    if a < b {
        assert(events[a].id != Some(id));
    } else if b < a {
        assert(events[b].id != Some(id));
    }
}

/// Where some event carries `id`, there is a first one that does.
pub proof fn lemma_has_match(events: Seq<LoggingEvent>, id: usize, k: int)
    requires
        0 <= k < events.len(),
        events[k].id == Some(id),
    ensures
        has_match(events, id),
    decreases k,
{
    if exists|j: int| 0 <= j < k && events[j].id == Some(id) {
        let j = choose|j: int| 0 <= j < k && events[j].id == Some(id);
        lemma_has_match(events, id, j);
    } else {
        assert(is_first_match(events, id, k));
    }
}

/// What one thread has accumulated so far.
#[derive(Debug)]
pub struct ThreadState {
    /// Number of spans currently open on the thread.
    pub indentation: usize,
    /// The next local sequence number to hand out.
    pub next_id: usize,
    /// Events waiting for the outermost span to complete, oldest first.
    pub events: Vec<LoggingEvent>,
}

/// The mathematical content of a `ThreadState`.
pub struct ThreadView {
    pub indentation: usize,
    pub next_id: usize,
    pub events: Seq<LoggingEvent>,
}

/// What a dispatched signal leaves for the caller to act on.
#[derive(Debug)]
pub struct Dispatched {
    /// The detached batch, present exactly when the depth is zero afterwards.
    pub batch: Option<Vec<LoggingEvent>>,
    /// The fault that the signal ran into, if any.
    pub fault: Option<Fault>,
}

/// The sequence number that follows `n`; it starts over after the largest.
pub open spec fn next_sequence(n: usize) -> usize {
    if n < usize::MAX {
        (n + 1) as usize
    } else {
        0
    }
}

impl ThreadView {
    /// A thread that has not been heard of yet.
    pub open spec fn empty() -> ThreadView {
        ThreadView { indentation: 0, next_id: 0, events: Seq::empty() }
    }

    pub open spec fn wf(self) -> bool {
        all_wf(self.events)
    }

    /// One more span is open. The depth saturates at the largest
    /// representable value.
    pub open spec fn opened(self) -> ThreadView {
        ThreadView {
            indentation: if self.indentation < usize::MAX {
                (self.indentation + 1) as usize
            } else {
                self.indentation
            },
            ..self
        }
    }

    /// One span fewer is open. The depth is clamped at zero.
    pub open spec fn closed(self) -> ThreadView {
        ThreadView {
            indentation: if self.indentation > 0 {
                (self.indentation - 1) as usize
            } else {
                self.indentation
            },
            ..self
        }
    }

    /// `event` is buffered last, stamped with the current depth, and one
    /// sequence number is used up.
    pub open spec fn recorded(self, event: LoggingEvent) -> ThreadView {
        ThreadView {
            indentation: self.indentation,
            next_id: next_sequence(self.next_id),
            events: self.events.push(event.stamped(self.indentation)),
        }
    }

    /// The first buffered event that carries `id` has its duration set.
    pub open spec fn retimed(self, id: usize, elapsed: u128) -> ThreadView {
        ThreadView { events: patched(self.events, id, elapsed), ..self }
    }

    /// The state once `signal` has been applied, before any flush.
    pub open spec fn applied(self, signal: Signal) -> ThreadView {
        match signal {
            Signal::Open => self.opened(),
            Signal::Close => self.closed(),
            Signal::PatchTiming { id, elapsed } => self.retimed(id, elapsed),
            Signal::Event(event) => self.recorded(event),
        }
    }

    /// The fault that `signal` runs into in this state.
    pub open spec fn fault_of(self, signal: Signal) -> Option<Fault> {
        match signal {
            Signal::Close if self.indentation == 0 => Some(Fault::IndentationUnderflow),
            Signal::PatchTiming { id, elapsed } if !can_patch(self.events, id) => Some(
                Fault::UnmatchedPatch,
            ),
            _ => None,
        }
    }

    /// The batch that leaves in this state: the whole buffer when no span is
    /// open, nothing otherwise.
    pub open spec fn batch(self) -> Option<Seq<LoggingEvent>> {
        if self.indentation == 0 {
            Some(self.events)
        } else {
            None
        }
    }

    /// The state that is left behind once the batch, if any, has gone.
    pub open spec fn drained(self) -> ThreadView {
        if self.indentation == 0 {
            ThreadView { events: Seq::empty(), ..self }
        } else {
            self
        }
    }

    /// The state after `signal` has been dispatched, flush included.
    pub open spec fn after(self, signal: Signal) -> ThreadView {
        self.applied(signal).drained()
    }
}

impl View for ThreadState {
    type V = ThreadView;

    open spec fn view(&self) -> ThreadView {
        ThreadView {
            indentation: self.indentation,
            next_id: self.next_id,
            events: self.events@,
        }
    }
}

impl ThreadState {
    /// The state of a thread that has not logged anything yet.
    pub fn new() -> (r: ThreadState)
        ensures
            r@ == ThreadView::empty(),
    {
        ThreadState { indentation: 0, next_id: 0, events: Vec::new() }
    }

    /// Opens a span: the depth grows by one.
    pub fn open(&mut self)
        ensures
            final(self)@ == old(self)@.opened(),
    {
        if self.indentation < usize::MAX {
            self.indentation = self.indentation + 1;
        }
    }

    /// Closes a span: the depth shrinks by one. On a thread with no open span
    /// the depth stays at zero and `false` is returned.
    pub fn close(&mut self) -> (ok: bool)
        ensures
            final(self)@ == old(self)@.closed(),
            ok == (old(self).indentation > 0),
    {
        if self.indentation > 0 {
            self.indentation = self.indentation - 1;
            true
        } else {
            false
        }
    }

    /// Hands out the next local sequence number.
    pub fn allocate_id(&mut self) -> (id: usize)
        ensures
            id == old(self).next_id,
            final(self)@ == (ThreadView { next_id: next_sequence(old(self).next_id), ..old(self)@ }),
    {
        let id: usize = self.next_id;
        self.next_id = if id < usize::MAX { id + 1 } else { 0 };
        id
    }

    /// Buffers `event` at the current depth and returns the sequence number
    /// that was used for it.
    pub fn record(&mut self, event: LoggingEvent) -> (id: usize)
        requires
            event.elapsed is None,
        ensures
            id == old(self).next_id,
            final(self)@ == old(self)@.recorded(event),
            old(self)@.wf() ==> final(self)@.wf(),
    {
        let mut event = event;
        event.indentation = self.indentation;
        let id: usize = self.allocate_id();
        self.events.push(event);
        id
    }

    /// Sets the duration on the first buffered event that carries `id`,
    /// unless it has one already. Returns whether the duration was set;
    /// otherwise nothing changes.
    pub fn patch(&mut self, id: usize, elapsed: u128) -> (found: bool)
        ensures
            found == can_patch(old(self)@.events, id),
            final(self)@ == old(self)@.retimed(id, elapsed),
            old(self)@.wf() ==> final(self)@.wf(),
    {
        let n: usize = self.events.len();
        let mut i: usize = 0;
        while i < n
            invariant
                i <= n,
                n == self.events.len(),
                *self == *old(self),
                forall|j: int| 0 <= j < i ==> self.events@[j].id != Some(id),
            decreases n - i,
        {
            let hit: bool = match self.events[i].id {
                Some(found_id) => found_id == id,
                None => false,
            };
            if hit {
                proof {
                    let k = i as int;
                    assert(is_first_match(old(self)@.events, id, k));
                    let c = first_match(old(self)@.events, id);
                    lemma_first_match_unique(old(self)@.events, id, k, c);
                }
                if self.events[i].elapsed.is_some() {
                    return false;
                }
                self.events[i].elapsed = Some(elapsed);
                assert(self.events@ =~= old(self).events@.update(
                    i as int,
                    old(self).events@[i as int].timed(elapsed),
                ));
                return true;
            }
            i = i + 1;
        }
        proof {
            assert forall|k: int| !is_first_match(old(self)@.events, id, k) by {
                if 0 <= k < n {
                    assert(self.events@[k].id != Some(id));
                }
            }
        }
        false
    }

    /// Detaches the whole buffer when no span is open; otherwise leaves it.
    pub fn take_batch(&mut self) -> (batch: Option<Vec<LoggingEvent>>)
        ensures
            batch is Some <==> old(self).indentation == 0,
            batch is Some ==> batch.unwrap()@ == old(self)@.events,
            final(self)@ == old(self)@.drained(),
    {
        if self.indentation == 0 {
            let mut out: Vec<LoggingEvent> = Vec::new();
            std::mem::swap(&mut self.events, &mut out);
            Some(out)
        } else {
            None
        }
    }

    /// Applies one signal and then detaches the buffer if the depth is zero.
    pub fn dispatch(&mut self, signal: Signal) -> (r: Dispatched)
        requires
            signal matches Signal::Event(e) ==> e.elapsed is None,
        ensures
            final(self)@ == old(self)@.after(signal),
            r.fault == old(self)@.fault_of(signal),
            r.batch is Some <==> old(self)@.applied(signal).batch() is Some,
            r.batch is Some ==> Some(r.batch.unwrap()@) == old(self)@.applied(signal).batch(),
            old(self)@.wf() ==> final(self)@.wf(),
    {
        let fault: Option<Fault> = match signal {
            Signal::Open => {
                self.open();
                None
            },
            Signal::Close => {
                if self.close() {
                    None
                } else {
                    Some(Fault::IndentationUnderflow)
                }
            },
            Signal::PatchTiming { id, elapsed } => {
                if self.patch(id, elapsed) {
                    None
                } else {
                    Some(Fault::UnmatchedPatch)
                }
            },
            Signal::Event(event) => {
                self.record(event);
                None
            },
        };
        let batch = self.take_batch();
        Dispatched { batch, fault }
    }
}

} // verus!
