use crate::aggregator::OrderedAggregator;
use crate::audio::{result_index, result_of, OutputConfig, SpeechModel, SynthError, SynthesisResult};
use crate::segment::{indexed, TextUnit};
use crate::stream::{fails_as_unusable, in_index_order, unusable, unusable_message};
use vstd::prelude::*;

verus! {

broadcast use vstd::std_specs::hash::group_hash_axioms;

/// The dispatch decisions of the parallel and realtime policies. Workers ask
/// for units with `dispatch`, report what the model returned with `complete`,
/// and the caller takes results in index order with `next_result`.
///
/// At most `workers` units are in flight at once, and no unit is dispatched
/// more than `window` places ahead of the next result to hand out.
pub struct Scheduler {
    units: Vec<TextUnit>,
    config: OutputConfig,
    workers: usize,
    window: usize,
    /// Index of the next unit to dispatch.
    next_dispatch: usize,
    /// How many dispatched units have not been completed.
    in_flight: usize,
    results: OrderedAggregator<SynthesisResult>,
    broken: Option<String>,
    /// Set once the caller abandons the results: no unit is dispatched after.
    cancelled: bool,
    /// The dispatched units that have not been completed.
    flying: Ghost<Set<usize>>,
}

impl Scheduler {
    pub closed spec fn units_spec(&self) -> Seq<TextUnit> {
        self.units@
    }

    pub closed spec fn config_spec(&self) -> OutputConfig {
        self.config
    }

    pub closed spec fn workers_spec(&self) -> nat {
        self.workers as nat
    }

    pub closed spec fn window_spec(&self) -> nat {
        self.window as nat
    }

    /// Index of the next unit to dispatch.
    pub closed spec fn dispatched_spec(&self) -> nat {
        self.next_dispatch as nat
    }

    /// Index of the next result to hand out.
    pub closed spec fn emitted_spec(&self) -> nat {
        self.results.next_spec()
    }

    /// The units handed to workers whose result has not come back.
    pub closed spec fn flying_spec(&self) -> Set<usize> {
        self.flying@
    }

    /// How many units are in flight.
    pub closed spec fn in_flight_spec(&self) -> nat {
        self.in_flight as nat
    }

    /// How many results wait for an earlier one before they can be handed out.
    pub closed spec fn held_spec(&self) -> nat {
        self.results.pending_spec().len()
    }

    pub closed spec fn cancelled_spec(&self) -> bool {
        self.cancelled
    }

    /// The results that came back and wait for an earlier one, by index.
    pub closed spec fn held_results(&self) -> Map<usize, SynthesisResult> {
        self.results.pending_spec()
    }

    /// Whether the result whose turn it is has come back.
    pub open spec fn head_ready(&self) -> bool {
        self.held_results().contains_key(self.emitted_spec() as usize)
    }

    pub closed spec fn broken_spec(&self) -> Option<Seq<char>> {
        match self.broken {
            Some(m) => Some(m@),
            None => None,
        }
    }

    pub closed spec fn wf(&self) -> bool {
        &&& indexed(self.units@)
        &&& self.workers > 0
        &&& self.window > 0
        &&& self.results.wf()
        &&& self.results.total_spec() == self.units@.len()
        &&& self.results.next_spec() <= self.next_dispatch <= self.units@.len()
        &&& self.next_dispatch <= self.results.next_spec() + self.window
        &&& self.flying@.finite()
        &&& self.flying@.len() == self.in_flight
        &&& self.in_flight <= self.workers
        &&& self.flying@.len() + self.results.pending_spec().len()
            == self.next_dispatch - self.results.next_spec()
        &&& forall|k: usize| #[trigger] self.flying@.contains(k) <==> (
            self.results.next_spec() <= k < self.next_dispatch
                && !self.results.pending_spec().contains_key(k))
        &&& forall|k: usize| #[trigger] self.results.pending_spec().contains_key(k) ==> {
            &&& k < self.next_dispatch
            &&& result_index(self.results.pending_spec()[k]) == k
        }
    }

    /// Whether `dispatch` hands out a unit in this state.
    pub open spec fn can_dispatch(&self) -> bool {
        &&& self.broken_spec() is None
        &&& !self.cancelled_spec()
        &&& self.dispatched_spec() < self.units_spec().len()
        &&& self.in_flight_spec() < self.workers_spec()
        &&& self.dispatched_spec() < self.emitted_spec() + self.window_spec()
    }

    /// Whether every result has been handed out.
    pub open spec fn finished_spec(&self) -> bool {
        self.emitted_spec() == self.units_spec().len()
    }

    /// A scheduler over `units` with the given bounds. A bound of 0 is refused.
    pub fn new(units: Vec<TextUnit>, config: OutputConfig, window: usize, workers: usize) -> (r: Result<Self, SynthError>)
        requires
            indexed(units@),
        ensures
            (window == 0 || workers == 0) <==> r is Err,
            r is Err ==> r->Err_0 is InvalidConfiguration,
            r matches Ok(s) ==> {
                &&& s.wf()
                &&& s.units_spec() == units@
                &&& s.config_spec() == config
                &&& s.window_spec() == window
                &&& s.workers_spec() == workers
                &&& s.dispatched_spec() == 0
                &&& s.emitted_spec() == 0
                &&& s.in_flight_spec() == 0
                &&& s.held_spec() == 0
                &&& s.broken_spec() is None
                &&& !s.cancelled_spec()
            },
    {
        if window == 0 || workers == 0 {
            return Err(SynthError::InvalidConfiguration);
        }
        let total = units.len();
        let results = OrderedAggregator::new(total);
        proof {
            assert(results.pending_spec().dom() =~= Set::<usize>::empty());
        }
        Ok(Scheduler {
            units,
            config,
            workers,
            window,
            next_dispatch: 0,
            in_flight: 0,
            results,
            broken: None,
            cancelled: false,
            flying: Ghost(Set::empty()),
        })
    }

    pub fn config(&self) -> (r: OutputConfig)
        ensures
            r == self.config_spec(),
    {
        self.config
    }

    pub fn workers(&self) -> (r: usize)
        ensures
            r == self.workers_spec(),
    {
        self.workers
    }

    pub fn window(&self) -> (r: usize)
        ensures
            r == self.window_spec(),
    {
        self.window
    }

    pub fn in_flight(&self) -> (r: usize)
        ensures
            r == self.in_flight_spec(),
    {
        self.in_flight
    }

    /// How many units the scheduler runs in all.
    pub fn unit_count(&self) -> (r: usize)
        ensures
            r == self.units_spec().len(),
    {
        self.units.len()
    }

    /// Whether every result has been handed out.
    pub fn is_finished(&self) -> (r: bool)
        requires
            self.wf(),
        ensures
            r == self.finished_spec(),
    {
        self.results.is_finished()
    }

    /// Abandons the results still to come: no unit is dispatched from now on.
    /// Units already in flight may still complete.
    pub fn cancel(&mut self)
        requires
            old(self).wf(),
        ensures
            final(self).wf(),
            final(self).cancelled_spec(),
            !final(self).can_dispatch(),
            final(self).units_spec() == old(self).units_spec(),
            final(self).workers_spec() == old(self).workers_spec(),
            final(self).window_spec() == old(self).window_spec(),
            final(self).emitted_spec() == old(self).emitted_spec(),
            final(self).dispatched_spec() == old(self).dispatched_spec(),
            final(self).in_flight_spec() == old(self).in_flight_spec(),
            final(self).held_results() == old(self).held_results(),
            final(self).broken_spec() == old(self).broken_spec(),
    {
        self.cancelled = true;
    }

    pub fn is_cancelled(&self) -> (r: bool)
        ensures
            r == self.cancelled_spec(),
    {
        self.cancelled
    }

    /// Hands the next unit to a worker, if the bounds allow it; the unit is in
    /// flight until `complete` reports its result.
    pub fn dispatch(&mut self) -> (r: Option<TextUnit>)
        requires
            old(self).wf(),
        ensures
            final(self).wf(),
            final(self).cancelled_spec() == old(self).cancelled_spec(),
            final(self).units_spec() == old(self).units_spec(),
            final(self).workers_spec() == old(self).workers_spec(),
            final(self).window_spec() == old(self).window_spec(),
            final(self).emitted_spec() == old(self).emitted_spec(),
            final(self).broken_spec() == old(self).broken_spec(),
            old(self).can_dispatch() ==> {
                &&& r is Some
                &&& r->Some_0.index == old(self).dispatched_spec()
                &&& r->Some_0.text@ == old(self).units_spec()[old(self).dispatched_spec() as int].text@
                &&& final(self).dispatched_spec() == old(self).dispatched_spec() + 1
                &&& final(self).in_flight_spec() == old(self).in_flight_spec() + 1
                &&& final(self).flying_spec() == old(self).flying_spec().insert(r->Some_0.index)
            },
            !old(self).can_dispatch() ==> {
                &&& r is None
                &&& final(self).dispatched_spec() == old(self).dispatched_spec()
                &&& final(self).in_flight_spec() == old(self).in_flight_spec()
                &&& final(self).flying_spec() == old(self).flying_spec()
            },
    {
        if self.broken.is_none() && !self.cancelled && self.next_dispatch < self.units.len() && self.in_flight < self.workers
            && self.next_dispatch - self.results.next_index() < self.window
        {
            let index = self.next_dispatch;
            let text = self.units[index].text.clone();
            self.next_dispatch = index + 1;
            self.in_flight = self.in_flight + 1;
            proof {
                self.flying@ = self.flying@.insert(index);
            }
            Some(TextUnit { index, text })
        } else {
            None
        }
    }

    /// Takes what the model returned for unit `index`. It is refused unless
    /// that unit is in flight. Once the model has been found unusable, every
    /// later result is stored as that same failure.
    pub fn complete(&mut self, index: usize, outcome: Result<Vec<i16>, SynthError>) -> (accepted: bool)
        requires
            old(self).wf(),
        ensures
            final(self).wf(),
            accepted == old(self).flying_spec().contains(index),
            final(self).cancelled_spec() == old(self).cancelled_spec(),
            final(self).units_spec() == old(self).units_spec(),
            final(self).workers_spec() == old(self).workers_spec(),
            final(self).window_spec() == old(self).window_spec(),
            final(self).emitted_spec() == old(self).emitted_spec(),
            final(self).dispatched_spec() == old(self).dispatched_spec(),
            accepted ==> final(self).flying_spec() == old(self).flying_spec().remove(index),
            accepted ==> final(self).in_flight_spec() == old(self).in_flight_spec() - 1,
            !accepted ==> final(self).flying_spec() == old(self).flying_spec(),
            !accepted ==> final(self).in_flight_spec() == old(self).in_flight_spec(),
            old(self).broken_spec() is Some ==> final(self).broken_spec() == old(self).broken_spec(),
            !accepted ==> final(self).held_results() == old(self).held_results(),
            accepted && old(self).broken_spec() is None ==> {
                &&& final(self).held_results() == old(self).held_results().insert(index, result_of(index, outcome))
                &&& final(self).broken_spec() == unusable_message(outcome)
            },
            accepted && old(self).broken_spec() is Some ==> {
                &&& final(self).held_results().dom() == old(self).held_results().dom().insert(index)
                &&& forall|k: usize| k != index && #[trigger] old(self).held_results().contains_key(k)
                    ==> final(self).held_results()[k] == old(self).held_results()[k]
                &&& fails_as_unusable(final(self).held_results()[index], old(self).broken_spec()->Some_0)
            },
    {
        let next = self.results.next_index();
        if !(next <= index && index < self.next_dispatch && !self.results.holds(index)) {
            return false;
        }
        assert(self.flying@.contains(index));
        let r = match &self.broken {
            Some(m) => SynthesisResult::Failure(index, unusable(m)),
            None => {
                if let Err(SynthError::ModelUnusable(m)) = &outcome {
                    self.broken = Some(m.clone());
                }
                SynthesisResult::from_outcome(index, outcome)
            },
        };
        let ghost old_pending = self.results.pending_spec();
        proof {
            self.results.lemma_pending_bounded();
        }
        let stored = self.results.insert(index, r);
        assert(stored);
        assert(!old_pending.dom().contains(index));
        assert(self.results.pending_spec().dom() == old_pending.dom().insert(index));
        proof {
            if self.in_flight == 0 {
                assert(self.flying@ =~= Set::<usize>::empty());
            }
        }
        self.in_flight = self.in_flight - 1;
        proof {
            self.flying@ = self.flying@.remove(index);
            assert forall|k: usize| #[trigger] self.flying@.contains(k) <==> (
                self.results.next_spec() <= k < self.next_dispatch
                    && !self.results.pending_spec().contains_key(k)) by {
                if k != index {
                    assert(old(self).flying@.contains(k) == self.flying@.contains(k));
                }
            }
        }
        true
    }

    /// Hands out the next result in index order, if it is there. When the
    /// model has been found unusable and no earlier unit is still out, the
    /// next unit fails with that error without being dispatched.
    pub fn next_result(&mut self) -> (r: Option<SynthesisResult>)
        requires
            old(self).wf(),
        ensures
            final(self).wf(),
            final(self).cancelled_spec() == old(self).cancelled_spec(),
            final(self).units_spec() == old(self).units_spec(),
            final(self).workers_spec() == old(self).workers_spec(),
            final(self).window_spec() == old(self).window_spec(),
            final(self).broken_spec() == old(self).broken_spec(),
            final(self).in_flight_spec() == old(self).in_flight_spec(),
            final(self).flying_spec() == old(self).flying_spec(),
            r is Some ==> {
                &&& result_index(r->Some_0) == old(self).emitted_spec()
                &&& final(self).emitted_spec() == old(self).emitted_spec() + 1
            },
            old(self).head_ready() ==> {
                &&& r == Some(old(self).held_results()[old(self).emitted_spec() as usize])
                &&& final(self).held_results() == old(self).held_results().remove(old(self).emitted_spec() as usize)
            },
            !old(self).head_ready() ==> final(self).held_results() == old(self).held_results(),
            r is None ==> final(self).emitted_spec() == old(self).emitted_spec(),
            r is None ==> final(self).dispatched_spec() == old(self).dispatched_spec(),
            old(self).dispatched_spec() <= final(self).dispatched_spec() <= old(self).dispatched_spec() + 1,
            old(self).emitted_spec() < old(self).units_spec().len()
                && !old(self).flying_spec().contains(old(self).emitted_spec() as usize)
                && (old(self).emitted_spec() < old(self).dispatched_spec()
                    || old(self).broken_spec() is Some) ==> r is Some,
            old(self).emitted_spec() == old(self).dispatched_spec() && old(self).broken_spec() is Some
                && r is Some ==> fails_as_unusable(r->Some_0, old(self).broken_spec()->Some_0),
    {
        let next = self.results.next_index();
        if next < self.next_dispatch {
            let ghost old_pending = self.results.pending_spec();
            proof {
                self.results.lemma_pending_bounded();
            }
            let r = self.results.pop_ready();
            if r.is_some() {
                assert(old_pending.dom().contains(next));
                assert(self.results.pending_spec().dom() == old_pending.dom().remove(next));
                assert(!self.flying@.contains(next));
                assert forall|k: usize| #[trigger] self.flying@.contains(k) <==> (
                    self.results.next_spec() <= k < self.next_dispatch
                        && !self.results.pending_spec().contains_key(k)) by {
                    if k != next {
                        assert(old_pending.contains_key(k) == self.results.pending_spec().contains_key(k));
                    }
                }
            }
            return r;
        }
        if next == self.units.len() {
            return None;
        }
        match &self.broken {
            Some(m) => {
                let err = unusable(m);
                let ghost old_pending = self.results.pending_spec();
                let stored = self.results.insert(next, SynthesisResult::Failure(next, err));
                assert(stored);
                self.next_dispatch = next + 1;
                let r = self.results.pop_ready();
                assert(self.results.pending_spec() =~= old_pending);
                r
            },
            None => None,
        }
    }

    /// The relations that hold between the counters of a scheduler.
    pub proof fn lemma_counters(&self)
        requires
            self.wf(),
        ensures
            0 < self.workers_spec(),
            0 < self.window_spec(),
            self.emitted_spec() <= self.dispatched_spec() <= self.units_spec().len(),
            self.dispatched_spec() <= self.emitted_spec() + self.window_spec(),
            self.flying_spec().finite(),
            self.flying_spec().len() == self.in_flight_spec(),
            self.in_flight_spec() + self.held_spec() == self.dispatched_spec() - self.emitted_spec(),
            forall|k: usize| #[trigger] self.flying_spec().contains(k)
                ==> self.emitted_spec() <= k < self.dispatched_spec(),
    {
    }

    /// Concurrency bound: the units in flight never outnumber the workers nor
    /// the window, and the results held back for an earlier one never
    /// outnumber the window.
    pub proof fn lemma_concurrency_bound(&self)
        requires
            self.wf(),
        ensures
            self.in_flight_spec() <= self.workers_spec(),
            self.in_flight_spec() <= self.window_spec(),
            self.held_spec() <= self.window_spec(),
    {
    }

    /// Progress: until every result is out, and unless the results were
    /// abandoned, some step moves the scheduler on:
    /// a result can be handed out, a unit can be dispatched, or a unit is in
    /// flight and its completion is awaited.
    pub proof fn lemma_progress(&self)
        requires
            self.wf(),
            !self.finished_spec(),
            !self.cancelled_spec(),
        ensures
            self.in_flight_spec() > 0
                || self.can_dispatch()
                || self.head_ready()
                || (self.broken_spec() is Some && self.emitted_spec() == self.dispatched_spec()),
    {
        if self.in_flight == 0 {
            self.flying@.lemma_len0_is_empty();
            let e = self.results.next_spec() as usize;
            if e < self.next_dispatch {
                assert(!self.flying@.contains(e));
            }
        }
    }

    /// Runs every remaining unit on this thread, one at a time, and returns
    /// the results in index order.
    pub fn run_inline<M: SpeechModel>(&mut self, model: &M) -> (r: Vec<SynthesisResult>)
        requires
            old(self).wf(),
            old(self).in_flight_spec() == 0,
            !old(self).cancelled_spec(),
        ensures
            final(self).wf(),
            final(self).finished_spec(),
            final(self).units_spec() == old(self).units_spec(),
            r@.len() == old(self).units_spec().len() - old(self).emitted_spec(),
            forall|i: int| 0 <= i < r@.len() ==> result_index(#[trigger] r@[i]) == old(self).emitted_spec() + i,
            old(self).emitted_spec() == 0 ==> in_index_order(r@, old(self).units_spec().len()),
    {
        let mut out: Vec<SynthesisResult> = Vec::new();
        proof {
            self.lemma_counters();
        }
        while !self.is_finished()
            invariant
                self.wf(),
                self.in_flight_spec() == 0,
                !self.cancelled_spec(),
                self.units_spec() == old(self).units_spec(),
                old(self).emitted_spec() <= self.emitted_spec(),
                out@.len() == self.emitted_spec() - old(self).emitted_spec(),
                forall|i: int| 0 <= i < out@.len() ==> result_index(#[trigger] out@[i]) == old(self).emitted_spec() + i,
            decreases 2 * self.units_spec().len() - self.emitted_spec() - self.dispatched_spec(),
        {
            proof {
                self.lemma_counters();
                self.flying@.lemma_len0_is_empty();
            }
            match self.next_result() {
                Some(x) => {
                    out.push(x);
                },
                None => {
                    let u = self.dispatch();
                    match u {
                        Some(unit) => {
                            let config = self.config;
                            let outcome = model.infer(unit.text.as_str(), &config);
                            let accepted = self.complete(unit.index, outcome);
                            assert(accepted);
                        },
                        None => {},
                    }
                },
            }
            proof {
                self.lemma_counters();
            }
        }
        out
    }
}

} // verus!
