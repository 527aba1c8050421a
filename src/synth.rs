use crate::audio::{result_index, OutputConfig, SpeechModel, SynthError, SynthesisResult};
use crate::scheduler::Scheduler;
use crate::segment::{segment, segmented, segments, unit_texts};
use crate::stream::{in_index_order, BatchedStream, LazyStream};
use vstd::prelude::*;
use vstd::string::*;

verus! {

/// The configuration a session runs with: the one given, else the model's
/// defaults.
pub open spec fn effective_config(config: Option<OutputConfig>) -> OutputConfig {
    match config {
        Some(c) => c,
        None => OutputConfig {
            rate: None,
            volume: None,
            pitch: None,
            appended_silence_ms: None,
        },
    }
}

pub fn resolve_config(config: Option<OutputConfig>) -> (r: OutputConfig)
    ensures
        r == effective_config(config),
{
    match config {
        Some(c) => c,
        None => OutputConfig::model_defaults(),
    }
}

/// The directory that holds the model files of one kind under `root`:
/// `<root>/models/<kind>`, or `kind` itself when it is an absolute path.
pub fn model_directory(root: &str, kind: &str) -> (r: String)
    ensures
        kind@.len() > 0 && kind@[0] == '/' ==> r@ == kind@,
        !(kind@.len() > 0 && kind@[0] == '/') ==> r@ == root@ + "/models/"@ + kind@,
{
    if kind.unicode_len() > 0 && kind.get_char(0) == '/' {
        return String::from_str(kind);
    }
    let mut dir = String::from_str(root);
    dir.append("/models/");
    dir.append(kind);
    dir
}

/// Binds a shared speech model; each `synthesize_*` call starts a session on
/// one text and returns the results of its units, in order, as they are asked
/// for.
pub struct SpeechSynthesizer<'a, M> {
    model: &'a M,
}

impl<'a, M: SpeechModel> SpeechSynthesizer<'a, M> {
    pub closed spec fn model_spec(&self) -> M {
        *self.model
    }

    pub fn new(model: &'a M) -> (r: Self)
        ensures
            r.model_spec() == *model,
    {
        SpeechSynthesizer { model }
    }

    /// One unit at a time, each run when its result is asked for.
    pub fn synthesize_lazy(&self, text: String, config: Option<OutputConfig>) -> (r: LazyStream<'a, M>)
        ensures
            r.wf(),
            segmented(text@, r.units_spec()),
            r.pos_spec() == 0,
            r.config_spec() == effective_config(config),
            r.model_spec() == self.model_spec(),
            r.broken_spec() is None,
    {
        let units = segment(text.as_str());
        LazyStream::new(self.model, resolve_config(config), units)
    }

    /// Units run a batch at a time: `batch_size` units, or the whole text when
    /// no size is given. A size of 0 is refused.
    pub fn synthesize_batched(&self, text: String, config: Option<OutputConfig>, batch_size: Option<usize>) -> (r: Result<BatchedStream<'a, M>, SynthError>)
        ensures
            batch_size == Some(0usize) <==> r is Err,
            r is Err ==> r->Err_0 is InvalidConfiguration,
            r matches Ok(s) ==> {
                &&& s.wf()
                &&& segmented(text@, s.units_spec())
                &&& s.pos_spec() == 0
                &&& s.buffered_spec() == 0
                &&& s.config_spec() == effective_config(config)
                &&& s.model_spec() == self.model_spec()
                &&& s.broken_spec() is None
                &&& s.batch_size_spec() == match batch_size {
                    Some(b) => b as nat,
                    None => if s.units_spec().len() == 0 { 1 } else { s.units_spec().len() },
                }
            },
    {
        let units = segment(text.as_str());
        BatchedStream::new(self.model, resolve_config(config), units, batch_size)
    }

    /// Units spread over `workers` workers, each taking the next unit as it
    /// becomes free; no unit runs more than `workers` places ahead of the next
    /// result, so results held back stay within the pool's size. No worker at
    /// all is refused.
    pub fn synthesize_parallel(&self, text: String, config: Option<OutputConfig>, workers: usize) -> (r: Result<Scheduler, SynthError>)
        ensures
            workers == 0 <==> r is Err,
            r is Err ==> r->Err_0 is InvalidConfiguration,
            r matches Ok(s) ==> {
                &&& s.wf()
                &&& segmented(text@, s.units_spec())
                &&& s.config_spec() == effective_config(config)
                &&& s.workers_spec() == workers
                &&& s.window_spec() == workers
                &&& s.emitted_spec() == 0
                &&& s.dispatched_spec() == 0
                &&& s.in_flight_spec() == 0
                &&& s.held_spec() == 0
                &&& s.broken_spec() is None
                &&& !s.cancelled_spec()
            },
    {
        let units = segment(text.as_str());
        Scheduler::new(units, resolve_config(config), workers, workers)
    }

    /// Units spread over `workers` workers, none dispatched more than `window`
    /// places ahead of the next result. A window or worker count of 0 is
    /// refused before any work starts.
    pub fn synthesize_streamed(&self, text: String, config: Option<OutputConfig>, window: usize, workers: usize) -> (r: Result<Scheduler, SynthError>)
        ensures
            (window == 0 || workers == 0) <==> r is Err,
            r is Err ==> r->Err_0 is InvalidConfiguration,
            r matches Ok(s) ==> {
                &&& s.wf()
                &&& segmented(text@, s.units_spec())
                &&& s.config_spec() == effective_config(config)
                &&& s.workers_spec() == workers
                &&& s.window_spec() == window
                &&& s.emitted_spec() == 0
                &&& s.dispatched_spec() == 0
                &&& s.in_flight_spec() == 0
                &&& s.held_spec() == 0
                &&& s.broken_spec() is None
                &&& !s.cancelled_spec()
            },
    {
        let units = segment(text.as_str());
        Scheduler::new(units, resolve_config(config), window, workers)
    }
}

/// The four strategies started on one text agree: they run over the same
/// units, as many as the text has, and draining each from its start gives one
/// result per unit in index order, so the same count and order for all four.
pub proof fn lemma_strategies_agree<M: SpeechModel>(
    text: Seq<char>,
    lazy: LazyStream<M>,
    batched: BatchedStream<M>,
    parallel: Scheduler,
    streamed: Scheduler,
    lazy_out: Seq<SynthesisResult>,
    batched_out: Seq<SynthesisResult>,
    parallel_out: Seq<SynthesisResult>,
    streamed_out: Seq<SynthesisResult>,
)
    requires
        segmented(text, lazy.units_spec()),
        segmented(text, batched.units_spec()),
        segmented(text, parallel.units_spec()),
        segmented(text, streamed.units_spec()),
        in_index_order(lazy_out, lazy.units_spec().len()),
        in_index_order(batched_out, batched.units_spec().len()),
        in_index_order(parallel_out, parallel.units_spec().len()),
        in_index_order(streamed_out, streamed.units_spec().len()),
    ensures
        lazy.units_spec().len() == segments(text).len(),
        batched.units_spec().len() == segments(text).len(),
        parallel.units_spec().len() == segments(text).len(),
        streamed.units_spec().len() == segments(text).len(),
        forall|i: int| 0 <= i < segments(text).len() ==> {
            &&& (#[trigger] lazy.units_spec()[i]).text@ == segments(text)[i]
            &&& batched.units_spec()[i].text@ == segments(text)[i]
            &&& parallel.units_spec()[i].text@ == segments(text)[i]
            &&& streamed.units_spec()[i].text@ == segments(text)[i]
        },
        lazy_out.len() == segments(text).len() && batched_out.len() == segments(text).len()
            && parallel_out.len() == segments(text).len() && streamed_out.len() == segments(text).len(),
        forall|i: int| 0 <= i < segments(text).len() ==> {
            &&& result_index(#[trigger] lazy_out[i]) == i
            &&& result_index(batched_out[i]) == i
            &&& result_index(parallel_out[i]) == i
            &&& result_index(streamed_out[i]) == i
        },
{
    assert(unit_texts(lazy.units_spec()).len() == segments(text).len());
    assert(unit_texts(batched.units_spec()).len() == segments(text).len());
    assert(unit_texts(parallel.units_spec()).len() == segments(text).len());
    assert(unit_texts(streamed.units_spec()).len() == segments(text).len());
    assert forall|i: int| 0 <= i < segments(text).len() implies {
        &&& (#[trigger] lazy.units_spec()[i]).text@ == segments(text)[i]
        &&& batched.units_spec()[i].text@ == segments(text)[i]
        &&& parallel.units_spec()[i].text@ == segments(text)[i]
        &&& streamed.units_spec()[i].text@ == segments(text)[i]
    } by {
        assert(unit_texts(lazy.units_spec())[i] == segments(text)[i]);
        assert(unit_texts(batched.units_spec())[i] == segments(text)[i]);
        assert(unit_texts(parallel.units_spec())[i] == segments(text)[i]);
        assert(unit_texts(streamed.units_spec())[i] == segments(text)[i]);
    }
    assert forall|i: int| 0 <= i < segments(text).len() implies {
        &&& result_index(#[trigger] lazy_out[i]) == i
        &&& result_index(batched_out[i]) == i
        &&& result_index(parallel_out[i]) == i
        &&& result_index(streamed_out[i]) == i
    } by {
        assert(result_index(batched_out[i]) == i);
        assert(result_index(parallel_out[i]) == i);
        assert(result_index(streamed_out[i]) == i);
    }
}

} // verus!
