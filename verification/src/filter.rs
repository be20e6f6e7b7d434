//! Which batches and which events reach the renderer.

use vstd::prelude::*;
use crate::event::LoggingEvent;

verus! {

/// A deterministic keep-or-drop decision on single events.
pub trait EventFilter {
    /// Whether the filter keeps `event`.
    spec fn keeps(&self, event: &LoggingEvent) -> bool;

    fn keep(&self, event: &LoggingEvent) -> (r: bool)
        ensures
            r == self.keeps(event),
    ;
}

/// The filter that keeps every event.
#[derive(Clone, Copy, Debug)]
pub struct KeepAll;

impl EventFilter for KeepAll {
    open spec fn keeps(&self, event: &LoggingEvent) -> bool {
        true
    }

    fn keep(&self, event: &LoggingEvent) -> (r: bool) {
        true
    }
}

/// The filter that drops spans that took at most `millis` milliseconds and
/// keeps everything else, events without a duration included.
#[derive(Clone, Copy, Debug)]
pub struct SlowerThan {
    pub millis: u128,
}

impl EventFilter for SlowerThan {
    open spec fn keeps(&self, event: &LoggingEvent) -> bool {
        match event.elapsed {
            Some(elapsed) => elapsed > self.millis,
            None => true,
        }
    }

    fn keep(&self, event: &LoggingEvent) -> (r: bool) {
        match event.elapsed {
            Some(elapsed) => elapsed > self.millis,
            None => true,
        }
    }
}

/// A batch of one quiet event that took no measurable time, or whose time
/// was never recorded.
pub open spec fn is_trivial(batch: Seq<LoggingEvent>) -> bool {
    &&& batch.len() == 1
    &&& batch[0].quiet
    &&& (batch[0].elapsed is None || batch[0].elapsed == Some(0u128))
}

/// Whether anything of `batch` is shown: it is not empty, its first event
/// passes the filter, and it is not trivial.
pub open spec fn is_shown<P: EventFilter>(batch: Seq<LoggingEvent>, filter: P) -> bool {
    &&& batch.len() > 0
    &&& filter.keeps(&batch[0])
    &&& !is_trivial(batch)
}

/// The events of `batch` that pass the filter, in their order.
pub open spec fn retained<P: EventFilter>(batch: Seq<LoggingEvent>, filter: P) -> Seq<LoggingEvent>
    decreases batch.len(),
{
    if batch.len() == 0 {
        batch
    } else if filter.keeps(&batch.last()) {
        retained(batch.drop_last(), filter).push(batch.last())
    } else {
        retained(batch.drop_last(), filter)
    }
}

/// The events of `batch` that reach the renderer.
pub open spec fn visible<P: EventFilter>(batch: Seq<LoggingEvent>, filter: P) -> Seq<LoggingEvent> {
    if is_shown(batch, filter) {
        retained(batch, filter)
    } else {
        Seq::empty()
    }
}

/// Decides whether a batch of one quiet, instantaneous event is dropped.
pub fn suppressed(batch: &Vec<LoggingEvent>) -> (r: bool)
    ensures
        r == is_trivial(batch@),
{
    if batch.len() != 1 {
        return false;
    }
    if !batch[0].quiet {
        return false;
    }
    match batch[0].elapsed {
        Some(elapsed) => elapsed == 0,
        None => true,
    }
}

/// Decides whether anything of the batch is shown.
pub fn passes<P: EventFilter>(batch: &Vec<LoggingEvent>, filter: &P) -> (r: bool)
    ensures
        r == is_shown(batch@, *filter),
{
    if batch.len() == 0 {
        return false;
    }
    if !filter.keep(&batch[0]) {
        return false;
    }
    !suppressed(batch)
}

/// Every event that `retained` keeps passes the filter and comes from the batch.
pub proof fn lemma_retained_members<P: EventFilter>(batch: Seq<LoggingEvent>, filter: P)
    ensures
        retained(batch, filter).len() <= batch.len(),
        forall|i: int|
            0 <= i < retained(batch, filter).len() ==> filter.keeps(
                &#[trigger] retained(batch, filter)[i],
            ),
        batch.len() > 0 && filter.keeps(&batch[0]) ==> retained(batch, filter).len() > 0
            && retained(batch, filter)[0] == batch[0],
    decreases batch.len(),
{
    if batch.len() > 0 {
        lemma_retained_members(batch.drop_last(), filter);
    }
}

/// When every event of a batch passes the filter, the filter keeps the batch whole.
pub proof fn lemma_retained_all<P: EventFilter>(batch: Seq<LoggingEvent>, filter: P)
    requires
        forall|i: int| 0 <= i < batch.len() ==> filter.keeps(&#[trigger] batch[i]),
    ensures
        retained(batch, filter) == batch,
    decreases batch.len(),
{
    if batch.len() > 0 {
        lemma_retained_all(batch.drop_last(), filter);
        assert(batch.drop_last().push(batch.last()) =~= batch);
    }
}

/// Filtering is idempotent: what one pass of a filter lets through, a second
/// pass of the same filter lets through unchanged, and the decision to show
/// the batch at all is the same both times.
pub proof fn lemma_filter_idempotent<P: EventFilter>(batch: Seq<LoggingEvent>, filter: P)
    ensures
        retained(retained(batch, filter), filter) == retained(batch, filter),
        is_shown(batch, filter) ==> (is_shown(visible(batch, filter), filter) || is_trivial(
            visible(batch, filter),
        )),
        is_shown(batch, filter) ==> retained(visible(batch, filter), filter) == visible(
            batch,
            filter,
        ),
{
    lemma_retained_members(batch, filter);
    lemma_retained_all(retained(batch, filter), filter);
}

/// The built-in rule drops a batch exactly when it is one quiet event with no
/// duration or a duration of zero: a quiet event that took time, a batch that
/// begins with an event that is not quiet, and a batch of several events are
/// never trivial.
pub proof fn lemma_quiet_suppression(batch: Seq<LoggingEvent>)
    ensures
        (batch.len() == 1 && batch[0].quiet && (batch[0].elapsed is None || batch[0].elapsed
            == Some(0u128))) ==> is_trivial(batch),
        (batch.len() > 0 && !batch[0].quiet) ==> !is_trivial(batch),
        (batch.len() > 0 && batch[0].elapsed is Some && batch[0].elapsed.unwrap() > 0)
            ==> !is_trivial(batch),
        batch.len() != 1 ==> !is_trivial(batch),
{
}

/// A trivial batch shows nothing, whatever the filter.
pub proof fn lemma_trivial_shows_nothing<P: EventFilter>(batch: Seq<LoggingEvent>, filter: P)
    requires
        is_trivial(batch),
    ensures
        visible(batch, filter).len() == 0,
{
}

} // verus!
