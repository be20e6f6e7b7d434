//! The mapping from thread names to thread states.

use vstd::prelude::*;
use rustc_hash::FxHashMap;
use rustc_hash::FxHasher;
use crate::event::Signal;
use crate::thread_state::{Dispatched, ThreadState, ThreadView};

verus! {

/// `rustc_hash::FxHasher`, carried through as an opaque value.
#[verifier::external_type_specification]
#[verifier::external_body]
pub struct ExFxHasher(FxHasher);

/// `std::hash::BuildHasherDefault`, carried through as an opaque value.
#[verifier::external_type_specification]
#[verifier::external_body]
#[verifier::reject_recursive_types(H)]
pub struct ExBuildHasherDefault<H>(std::hash::BuildHasherDefault<H>);

/// The states that `map` holds, by thread name. A name that is absent has
/// not been heard of yet.
pub uninterp spec fn states_of(map: FxHashMap<String, ThreadState>) -> Map<
    Seq<char>,
    ThreadView,
>;

/// The mapping in which no thread has a state yet.
pub open spec fn no_threads() -> Map<Seq<char>, ThreadView> {
    Map::empty()
}

/// `rustc_hash::FxHashMap::default`: a map that holds no entry.
#[verifier::external_body]
fn empty_map() -> (fresh: FxHashMap<String, ThreadState>)
    ensures
        states_of(fresh) == no_threads(),
{
    FxHashMap::default()
}

/// `HashMap::remove` on a `rustc_hash::FxHashMap`: the entry under `name`
/// leaves the map and is returned; `None` comes back, and the map stays as it
/// is, when there is no such entry.
#[verifier::external_body]
fn remove_state(
    map: &mut FxHashMap<String, ThreadState>,
    name: &str,
) -> (state: Option<ThreadState>)
    ensures
        state is Some <==> states_of(*old(map)).contains_key(name@),
        state is Some ==> state.unwrap()@ == states_of(*old(map))[name@],
        states_of(*final(map)) == states_of(*old(map)).remove(name@),
{
    map.remove(name)
}

/// `HashMap::insert` on a `rustc_hash::FxHashMap`: afterwards `name` maps to
/// `state`, and every other entry is as before.
#[verifier::external_body]
fn insert_state(
    map: &mut FxHashMap<String, ThreadState>,
    name: &str,
    state: ThreadState,
)
    ensures
        states_of(*final(map)) == states_of(*old(map)).insert(name@, state@),
{
    map.insert(name.to_string(), state);
}

/// The state that `states` holds for `name`: the empty one for a thread that
/// has no entry yet.
pub open spec fn state_for(states: Map<Seq<char>, ThreadView>, name: Seq<char>) -> ThreadView {
    if states.contains_key(name) {
        states[name]
    } else {
        ThreadView::empty()
    }
}

/// All thread states of one logger.
pub struct LoggingData {
    internal_data: FxHashMap<String, ThreadState>,
}

impl View for LoggingData {
    type V = Map<Seq<char>, ThreadView>;

    closed spec fn view(&self) -> Map<Seq<char>, ThreadView> {
        states_of(self.internal_data)
    }
}

impl LoggingData {
    /// A registry without any thread.
    pub fn new() -> (r: LoggingData)
        ensures
            r@ == no_threads(),
    {
        LoggingData { internal_data: empty_map() }
    }

    /// Takes the state of `name` out of the mapping, creating it when the
    /// thread is new.
    fn checkout(&mut self, name: &str) -> (state: ThreadState)
        ensures
            state@ == state_for(old(self)@, name@),
            final(self)@ == old(self)@.remove(name@),
    {
        match remove_state(&mut self.internal_data, name) {
            Some(state) => state,
            None => ThreadState::new(),
        }
    }

    /// Dispatches `signal` to the state of thread `name`, which is created on
    /// first use and stays in the mapping afterwards.
    pub fn dispatch(&mut self, name: &str, signal: Signal) -> (r: Dispatched)
        requires
            signal matches Signal::Event(e) ==> e.elapsed is None,
        ensures
            final(self)@ == old(self)@.insert(name@, state_for(old(self)@, name@).after(signal)),
            r.fault == state_for(old(self)@, name@).fault_of(signal),
            r.batch is Some <==> state_for(old(self)@, name@).applied(signal).batch() is Some,
            r.batch is Some ==> Some(r.batch.unwrap()@) == state_for(old(self)@, name@).applied(
                signal,
            ).batch(),
    {
        let mut state = self.checkout(name);
        let r = state.dispatch(signal);
        insert_state(&mut self.internal_data, name, state);
        assert(final(self)@ =~= old(self)@.insert(name@, state_for(old(self)@, name@).after(signal)));
        r
    }
}

} // verus!
