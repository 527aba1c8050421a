use crate::audio::{result_index, result_of, OutputConfig, SpeechModel, SynthError, SynthesisResult};
use crate::segment::{indexed, TextUnit};
use vstd::prelude::*;

verus! {

/// A result sequence is complete for `n` units: one result per unit, in
/// index order from 0, none missing and none repeated.
pub open spec fn in_index_order(rs: Seq<SynthesisResult>, n: nat) -> bool {
    &&& rs.len() == n
    &&& forall|i: int| 0 <= i < rs.len() ==> result_index(#[trigger] rs[i]) == i
}

/// What a unit's result is when the model was found unusable earlier.
pub open spec fn fails_as_unusable(r: SynthesisResult, msg: Seq<char>) -> bool {
    &&& r is Failure
    &&& r->Failure_1 is ModelUnusable
    &&& r->Failure_1->ModelUnusable_0@ == msg
}

/// The message of an error that leaves the model unusable.
pub open spec fn unusable_message(o: Result<Vec<i16>, SynthError>) -> Option<Seq<char>> {
    match o {
        Err(SynthError::ModelUnusable(m)) => Some(m@),
        _ => None,
    }
}

/// The error that every unit after a model breakdown carries.
pub fn unusable(msg: &String) -> (r: SynthError)
    ensures
        r is ModelUnusable,
        r->ModelUnusable_0@ == msg@,
{
    SynthError::ModelUnusable(msg.clone())
}

/// The message held by a breakdown latch.
pub open spec fn latch(b: Option<String>) -> Option<Seq<char>> {
    match b {
        Some(m) => Some(m@),
        None => None,
    }
}

/// The result for unit `index` from what the model returned for it; an
/// error that leaves the model unusable sets the latch.
pub fn record_outcome(index: usize, outcome: Result<Vec<i16>, SynthError>, broken: &mut Option<String>) -> (r: SynthesisResult)
    requires
        old(broken).is_none(),
    ensures
        r == result_of(index, outcome),
        latch(*final(broken)) == unusable_message(outcome),
{
    if let Err(SynthError::ModelUnusable(m)) = &outcome {
        *broken = Some(m.clone());
    }
    SynthesisResult::from_outcome(index, outcome)
}

/// Runs the model on one unit. Once the model has been found unusable it is
/// not called again: the unit fails with the same error.
pub fn run_unit<M: SpeechModel>(
    model: &M,
    unit: &TextUnit,
    config: &OutputConfig,
    broken: &mut Option<String>,
) -> (r: SynthesisResult)
    ensures
        result_index(r) == unit.index,
        old(broken).is_some() ==> *final(broken) == *old(broken),
        old(broken).is_some() ==> fails_as_unusable(r, old(broken).unwrap()@),
        old(broken).is_none() ==> exists|o: Result<Vec<i16>, SynthError>|
            #[trigger] result_of(unit.index, o) == r && latch(*final(broken)) == unusable_message(o),
{
    match broken {
        Some(m) => SynthesisResult::Failure(unit.index, unusable(m)),
        None => {
            let outcome = model.infer(unit.text.as_str(), config);
            let ghost o = outcome;
            let r = record_outcome(unit.index, outcome, broken);
            assert(result_of(unit.index, o) == r);
            r
        },
    }
}

/// Results computed one at a time, each only when it is asked for.
pub struct LazyStream<'a, M> {
    model: &'a M,
    config: OutputConfig,
    units: Vec<TextUnit>,
    pos: usize,
    broken: Option<String>,
}

impl<'a, M: SpeechModel> LazyStream<'a, M> {
    pub closed spec fn units_spec(&self) -> Seq<TextUnit> {
        self.units@
    }

    /// How many results have been handed out.
    pub closed spec fn pos_spec(&self) -> nat {
        self.pos as nat
    }

    /// The configuration every unit runs with.
    pub closed spec fn config_spec(&self) -> OutputConfig {
        self.config
    }

    pub closed spec fn model_spec(&self) -> M {
        *self.model
    }

    /// The message of the error that left the model unusable, once one came.
    pub closed spec fn broken_spec(&self) -> Option<Seq<char>> {
        latch(self.broken)
    }

    pub closed spec fn wf(&self) -> bool {
        &&& indexed(self.units@)
        &&& self.pos <= self.units@.len()
    }

    /// A stream over `units` that has handed out nothing yet.
    pub fn new(model: &'a M, config: OutputConfig, units: Vec<TextUnit>) -> (r: Self)
        requires
            indexed(units@),
        ensures
            r.wf(),
            r.units_spec() == units@,
            r.pos_spec() == 0,
            r.config_spec() == config,
            r.model_spec() == *model,
            r.broken_spec() is None,
    {
        LazyStream { model, config, units, pos: 0, broken: None }
    }

    /// How many results are still to come.
    pub fn remaining(&self) -> (r: usize)
        requires
            self.wf(),
        ensures
            r == self.units_spec().len() - self.pos_spec(),
    {
        self.units.len() - self.pos
    }

    /// The unit whose result comes next.
    pub fn pending(&self) -> (u: &TextUnit)
        requires
            self.wf(),
            self.pos_spec() < self.units_spec().len(),
        ensures
            *u == self.units_spec()[self.pos_spec() as int],
    {
        &self.units[self.pos]
    }

    /// Hands out the result of the next unit from what the model returned for
    /// it; once the model has been found unusable, the unit fails with that
    /// error instead.
    pub fn accept(&mut self, outcome: Result<Vec<i16>, SynthError>) -> (r: SynthesisResult)
        requires
            old(self).wf(),
            old(self).pos_spec() < old(self).units_spec().len(),
        ensures
            final(self).wf(),
            final(self).units_spec() == old(self).units_spec(),
            final(self).config_spec() == old(self).config_spec(),
            final(self).model_spec() == old(self).model_spec(),
            final(self).pos_spec() == old(self).pos_spec() + 1,
            old(self).broken_spec() is None ==> {
                &&& r == result_of(old(self).pos_spec() as usize, outcome)
                &&& final(self).broken_spec() == unusable_message(outcome)
            },
            old(self).broken_spec() matches Some(m) ==> {
                &&& fails_as_unusable(r, m)
                &&& result_index(r) == old(self).pos_spec()
                &&& final(self).broken_spec() == old(self).broken_spec()
            },
    {
        let index = self.pos;
        let n = self.units.len();
        assert(index < n);
        self.pos = index + 1;
        match &self.broken {
            Some(m) => SynthesisResult::Failure(index, unusable(m)),
            None => record_outcome(index, outcome, &mut self.broken),
        }
    }

    /// Runs the model on the next unit, with the stream's configuration, and
    /// hands out its result; `None` once every unit has had its result.
    pub fn next(&mut self) -> (r: Option<SynthesisResult>)
        requires
            old(self).wf(),
        ensures
            final(self).wf(),
            final(self).units_spec() == old(self).units_spec(),
            final(self).config_spec() == old(self).config_spec(),
            final(self).model_spec() == old(self).model_spec(),
            old(self).pos_spec() < old(self).units_spec().len() ==> {
                &&& r is Some
                &&& result_index(r->Some_0) == old(self).pos_spec()
                &&& final(self).pos_spec() == old(self).pos_spec() + 1
            },
            old(self).pos_spec() < old(self).units_spec().len() && old(self).broken_spec() is None
                ==> exists|o: Result<Vec<i16>, SynthError>|
                #[trigger] result_of(old(self).pos_spec() as usize, o) == r->Some_0
                    && final(self).broken_spec() == unusable_message(o),
            old(self).pos_spec() < old(self).units_spec().len() && old(self).broken_spec() is Some
                ==> fails_as_unusable(r->Some_0, old(self).broken_spec()->Some_0)
                    && final(self).broken_spec() == old(self).broken_spec(),
            old(self).pos_spec() == old(self).units_spec().len() ==> {
                &&& r is None
                &&& final(self).pos_spec() == old(self).pos_spec()
                &&& final(self).broken_spec() == old(self).broken_spec()
            },
    {
        if self.pos < self.units.len() {
            let ghost was_broken = self.broken;
            let pos = self.pos;
            assert(self.units@[pos as int].index == pos);
            let r = run_unit(self.model, &self.units[pos], &self.config, &mut self.broken);
            proof {
                if was_broken.is_none() {
                    let o = choose|o: Result<Vec<i16>, SynthError>|
                        #[trigger] result_of(pos, o) == r && latch(self.broken) == unusable_message(o);
                    assert(result_of((pos as nat) as usize, o) == r);
                    assert(latch(self.broken) == unusable_message(o));
                }
            }
            self.pos = pos + 1;
            Some(r)
        } else {
            None
        }
    }

    /// Every result still to come, in order.
    pub fn collect_all(&mut self) -> (r: Vec<SynthesisResult>)
        requires
            old(self).wf(),
        ensures
            final(self).wf(),
            final(self).units_spec() == old(self).units_spec(),
            final(self).config_spec() == old(self).config_spec(),
            final(self).pos_spec() == final(self).units_spec().len(),
            r@.len() == old(self).units_spec().len() - old(self).pos_spec(),
            forall|i: int| 0 <= i < r@.len() ==> result_index(#[trigger] r@[i]) == old(self).pos_spec() + i,
            old(self).pos_spec() == 0 ==> in_index_order(r@, old(self).units_spec().len()),
    {
        let mut out: Vec<SynthesisResult> = Vec::new();
        while self.pos < self.units.len()
            invariant
                self.wf(),
                self.units_spec() == old(self).units_spec(),
                self.config_spec() == old(self).config_spec(),
                old(self).pos_spec() <= self.pos_spec(),
                out@.len() == self.pos_spec() - old(self).pos_spec(),
                forall|i: int| 0 <= i < out@.len() ==> result_index(#[trigger] out@[i]) == old(self).pos_spec() + i,
            decreases self.units_spec().len() - self.pos_spec(),
        {
            let r = self.next();
            match r {
                Some(x) => out.push(x),
                None => {},
            }
        }
        out
    }
}

/// Results computed a batch at a time: when a result is asked for and none is
/// left over, the model runs on each unit of the next batch, and the batch's
/// results are then handed out one by one.
pub struct BatchedStream<'a, M> {
    model: &'a M,
    config: OutputConfig,
    units: Vec<TextUnit>,
    batch_size: usize,
    /// Index of the next result to hand out.
    pos: usize,
    /// End of the last batch that was run.
    batch_end: usize,
    /// Results of the last batch not yet handed out, the next one last.
    buffer: Vec<SynthesisResult>,
    broken: Option<String>,
}

impl<'a, M: SpeechModel> BatchedStream<'a, M> {
    pub closed spec fn units_spec(&self) -> Seq<TextUnit> {
        self.units@
    }

    pub closed spec fn pos_spec(&self) -> nat {
        self.pos as nat
    }

    pub closed spec fn batch_size_spec(&self) -> nat {
        self.batch_size as nat
    }

    /// How many results have been computed and wait to be handed out.
    pub closed spec fn buffered_spec(&self) -> nat {
        self.buffer@.len()
    }

    /// The configuration every unit runs with.
    pub closed spec fn config_spec(&self) -> OutputConfig {
        self.config
    }

    pub closed spec fn model_spec(&self) -> M {
        *self.model
    }

    /// The message of the error that left the model unusable, once one came.
    pub closed spec fn broken_spec(&self) -> Option<Seq<char>> {
        latch(self.broken)
    }

    pub closed spec fn wf(&self) -> bool {
        &&& indexed(self.units@)
        &&& self.batch_size > 0
        &&& self.pos <= self.batch_end <= self.units@.len()
        &&& self.buffer@.len() == self.batch_end - self.pos
        &&& self.buffer@.len() <= self.batch_size
        &&& forall|k: int| 0 <= k < self.buffer@.len()
            ==> result_index(#[trigger] self.buffer@[k]) == self.batch_end - 1 - k
    }

    /// A stream over `units` in batches of `batch_size` units; the whole input
    /// is one batch when no size is given. A size of 0 is refused.
    pub fn new(model: &'a M, config: OutputConfig, units: Vec<TextUnit>, batch_size: Option<usize>) -> (r: Result<Self, SynthError>)
        requires
            indexed(units@),
        ensures
            batch_size == Some(0usize) <==> r is Err,
            r is Err ==> r->Err_0 is InvalidConfiguration,
            r matches Ok(s) ==> {
                &&& s.wf()
                &&& s.units_spec() == units@
                &&& s.pos_spec() == 0
                &&& s.buffered_spec() == 0
                &&& s.config_spec() == config
                &&& s.model_spec() == *model
                &&& s.broken_spec() is None
                &&& s.batch_size_spec() == match batch_size {
                    Some(b) => b as nat,
                    None => if units@.len() == 0 { 1 } else { units@.len() },
                }
            },
    {
        let size = match batch_size {
            Some(b) => b,
            None => if units.len() == 0 { 1 } else { units.len() },
        };
        if size == 0 {
            return Err(SynthError::InvalidConfiguration);
        }
        Ok(BatchedStream {
            model,
            config,
            units,
            batch_size: size,
            pos: 0,
            batch_end: 0,
            buffer: Vec::new(),
            broken: None,
        })
    }

    /// How many results of the last batch wait to be handed out.
    pub fn buffered(&self) -> (r: usize)
        ensures
            r == self.buffered_spec(),
    {
        self.buffer.len()
    }

    /// Runs the model on every unit of the batch that starts at `pos`, in
    /// index order.
    fn run_batch(&mut self)
        requires
            old(self).wf(),
            old(self).buffer@.len() == 0,
            old(self).pos < old(self).units@.len(),
        ensures
            final(self).wf(),
            final(self).units@ == old(self).units@,
            final(self).pos == old(self).pos,
            final(self).batch_size == old(self).batch_size,
            final(self).config == old(self).config,
            final(self).model == old(self).model,
            final(self).buffer@.len() == if old(self).units@.len() - old(self).pos < old(self).batch_size {
                old(self).units@.len() - old(self).pos
            } else {
                old(self).batch_size as int
            },
            old(self).broken.is_some() ==> final(self).broken == old(self).broken,
            old(self).broken.is_some() ==> forall|k: int| 0 <= k < final(self).buffer@.len()
                ==> fails_as_unusable(#[trigger] final(self).buffer@[k], old(self).broken.unwrap()@),
    {
        let start = self.pos;
        let room = self.units.len() - start;
        let end = if room < self.batch_size { self.units.len() } else { start + self.batch_size };
        let mut done: Vec<SynthesisResult> = Vec::new();
        let mut j: usize = start;
        while j < end
            invariant
                indexed(self.units@),
                self.units@ == old(self).units@,
                self.pos == start,
                self.batch_size == old(self).batch_size,
                self.config == old(self).config,
                self.model == old(self).model,
                self.buffer@.len() == 0,
                start <= j <= end <= self.units@.len(),
                done@.len() == j - start,
                forall|k: int| 0 <= k < done@.len() ==> result_index(#[trigger] done@[k]) == start + k,
                old(self).broken.is_some() ==> self.broken == old(self).broken,
                old(self).broken.is_some() ==> forall|k: int| 0 <= k < done@.len()
                    ==> fails_as_unusable(#[trigger] done@[k], old(self).broken.unwrap()@),
            decreases end - j,
        {
            let r = run_unit(self.model, &self.units[j], &self.config, &mut self.broken);
            done.push(r);
            j = j + 1;
        }
        while done.len() > 0
            invariant
                indexed(self.units@),
                self.units@ == old(self).units@,
                self.pos == start,
                self.batch_size == old(self).batch_size,
                self.config == old(self).config,
                self.model == old(self).model,
                start < end <= self.units@.len(),
                end - start <= self.batch_size,
                done@.len() + self.buffer@.len() == end - start,
                forall|k: int| 0 <= k < done@.len() ==> result_index(#[trigger] done@[k]) == start + k,
                forall|k: int| 0 <= k < self.buffer@.len()
                    ==> result_index(#[trigger] self.buffer@[k]) == end - 1 - k,
                old(self).broken.is_some() ==> self.broken == old(self).broken,
                old(self).broken.is_some() ==> forall|k: int| 0 <= k < done@.len()
                    ==> fails_as_unusable(#[trigger] done@[k], old(self).broken.unwrap()@),
                old(self).broken.is_some() ==> forall|k: int| 0 <= k < self.buffer@.len()
                    ==> fails_as_unusable(#[trigger] self.buffer@[k], old(self).broken.unwrap()@),
            decreases done@.len(),
        {
            let r = done.pop().unwrap();
            self.buffer.push(r);
        }
        self.batch_end = end;
    }

    /// Hands out the next result. When no result of the last batch is left,
    /// the whole next batch runs first, and its other results stay buffered;
    /// `None` once every unit has had its result.
    pub fn next(&mut self) -> (r: Option<SynthesisResult>)
        requires
            old(self).wf(),
        ensures
            final(self).wf(),
            final(self).units_spec() == old(self).units_spec(),
            final(self).batch_size_spec() == old(self).batch_size_spec(),
            final(self).config_spec() == old(self).config_spec(),
            final(self).model_spec() == old(self).model_spec(),
            old(self).pos_spec() < old(self).units_spec().len() ==> {
                &&& r is Some
                &&& result_index(r->Some_0) == old(self).pos_spec()
                &&& final(self).pos_spec() == old(self).pos_spec() + 1
            },
            old(self).pos_spec() < old(self).units_spec().len() && old(self).buffered_spec() > 0
                ==> final(self).buffered_spec() == old(self).buffered_spec() - 1
                    && final(self).broken_spec() == old(self).broken_spec(),
            old(self).pos_spec() < old(self).units_spec().len() && old(self).buffered_spec() == 0
                ==> final(self).buffered_spec() + 1 == (if old(self).units_spec().len() - old(self).pos_spec()
                    < old(self).batch_size_spec() {
                    old(self).units_spec().len() - old(self).pos_spec()
                } else {
                    old(self).batch_size_spec() as int
                }),
            old(self).pos_spec() < old(self).units_spec().len() && old(self).buffered_spec() == 0
                && old(self).broken_spec() is Some ==> {
                &&& fails_as_unusable(r->Some_0, old(self).broken_spec()->Some_0)
                &&& final(self).broken_spec() == old(self).broken_spec()
            },
            old(self).pos_spec() == old(self).units_spec().len() ==> {
                &&& r is None
                &&& final(self).pos_spec() == old(self).pos_spec()
                &&& final(self).broken_spec() == old(self).broken_spec()
            },
    {
        if self.pos == self.units.len() {
            return None;
        }
        if self.buffer.len() == 0 {
            self.run_batch();
        }
        let r = self.buffer.pop();
        self.pos = self.pos + 1;
        r
    }

    /// Every result still to come, in order.
    pub fn collect_all(&mut self) -> (r: Vec<SynthesisResult>)
        requires
            old(self).wf(),
        ensures
            final(self).wf(),
            final(self).units_spec() == old(self).units_spec(),
            final(self).config_spec() == old(self).config_spec(),
            final(self).pos_spec() == final(self).units_spec().len(),
            r@.len() == old(self).units_spec().len() - old(self).pos_spec(),
            forall|i: int| 0 <= i < r@.len() ==> result_index(#[trigger] r@[i]) == old(self).pos_spec() + i,
            old(self).pos_spec() == 0 ==> in_index_order(r@, old(self).units_spec().len()),
    {
        let mut out: Vec<SynthesisResult> = Vec::new();
        while self.pos < self.units.len()
            invariant
                self.wf(),
                self.units_spec() == old(self).units_spec(),
                self.config_spec() == old(self).config_spec(),
                old(self).pos_spec() <= self.pos_spec(),
                out@.len() == self.pos_spec() - old(self).pos_spec(),
                forall|i: int| 0 <= i < out@.len() ==> result_index(#[trigger] out@[i]) == old(self).pos_spec() + i,
            decreases self.units_spec().len() - self.pos_spec(),
        {
            let r = self.next();
            match r {
                Some(x) => out.push(x),
                None => {},
            }
        }
        out
    }
}

} // verus!
