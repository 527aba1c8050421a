use sonata_synth::aggregator::OrderedAggregator;
use sonata_synth::audio::{OutputConfig, SpeechModel, SynthError, SynthesisResult};
use sonata_synth::synth::SpeechSynthesizer;

/// Answers each text with one sample per character; fails on the texts it
/// is told to fail on.
struct StubModel {
    fail_on: Vec<String>,
    unusable_on: Vec<String>,
}

impl StubModel {
    fn good() -> StubModel {
        StubModel { fail_on: vec![], unusable_on: vec![] }
    }
}

impl SpeechModel for StubModel {
    fn infer(&self, text: &str, _config: &OutputConfig) -> Result<Vec<i16>, SynthError> {
        if self.unusable_on.iter().any(|t| t == text) {
            return Err(SynthError::ModelUnusable("out of memory".to_string()));
        }
        if self.fail_on.iter().any(|t| t == text) {
            return Err(SynthError::Inference(format!("cannot say {}", text)));
        }
        Ok(text.chars().map(|c| c as i16).collect())
    }
}

fn indices(rs: &[SynthesisResult]) -> Vec<usize> {
    rs.iter().map(|r| r.index()).collect()
}

fn samples_of(r: &SynthesisResult) -> Vec<i16> {
    match r {
        SynthesisResult::Success(a) => a.samples.clone(),
        SynthesisResult::Failure(_, _) => vec![],
    }
}

const SCENARIO: &str = "Hello there. How are you?";

#[test]
fn lazy_gives_two_ordered_results() {
    let model = StubModel::good();
    let synth = SpeechSynthesizer::new(&model);
    let mut s = synth.synthesize_lazy(SCENARIO.to_string(), None);
    assert_eq!(s.remaining(), 2);
    let a = s.next().unwrap();
    let b = s.next().unwrap();
    assert!(s.next().is_none());
    assert_eq!(a.index(), 0);
    assert_eq!(b.index(), 1);
    assert_eq!(samples_of(&a), "Hello there.".chars().map(|c| c as i16).collect::<Vec<i16>>());
}

#[test]
fn batched_gives_two_ordered_results() {
    let model = StubModel::good();
    let synth = SpeechSynthesizer::new(&model);
    let mut s = synth.synthesize_batched(SCENARIO.to_string(), None, None).unwrap();
    assert_eq!(indices(&s.collect_all()), vec![0, 1]);
}

#[test]
fn batched_with_small_batches_keeps_order() {
    let model = StubModel::good();
    let synth = SpeechSynthesizer::new(&model);
    let mut s = synth.synthesize_batched("A. B. C. D. E.".to_string(), None, Some(2)).unwrap();
    let rs = s.collect_all();
    assert_eq!(indices(&rs), vec![0, 1, 2, 3, 4]);
    assert_eq!(samples_of(&rs[4]), vec!['E' as i16, '.' as i16]);
}

#[test]
fn batched_refuses_batch_size_zero() {
    let model = StubModel::good();
    let synth = SpeechSynthesizer::new(&model);
    let r = synth.synthesize_batched(SCENARIO.to_string(), None, Some(0));
    assert!(matches!(r, Err(SynthError::InvalidConfiguration)));
}

#[test]
fn parallel_gives_two_ordered_results() {
    let model = StubModel::good();
    let synth = SpeechSynthesizer::new(&model);
    let mut s = synth.synthesize_parallel(SCENARIO.to_string(), None, 4).unwrap();
    assert_eq!(indices(&s.run_inline(&model)), vec![0, 1]);
    assert!(s.is_finished());
}

#[test]
fn streamed_gives_two_ordered_results() {
    let model = StubModel::good();
    let synth = SpeechSynthesizer::new(&model);
    let mut s = synth.synthesize_streamed(SCENARIO.to_string(), None, 72, 3).unwrap();
    assert_eq!(indices(&s.run_inline(&model)), vec![0, 1]);
}

#[test]
fn parallel_refuses_zero_workers() {
    let model = StubModel::good();
    let synth = SpeechSynthesizer::new(&model);
    assert!(matches!(
        synth.synthesize_parallel(SCENARIO.to_string(), None, 0),
        Err(SynthError::InvalidConfiguration)
    ));
}

#[test]
fn streamed_refuses_zero_window_or_workers() {
    let model = StubModel::good();
    let synth = SpeechSynthesizer::new(&model);
    assert!(matches!(
        synth.synthesize_streamed(SCENARIO.to_string(), None, 0, 3),
        Err(SynthError::InvalidConfiguration)
    ));
    assert!(matches!(
        synth.synthesize_streamed(SCENARIO.to_string(), None, 72, 0),
        Err(SynthError::InvalidConfiguration)
    ));
}

#[test]
fn blank_text_gives_no_result_for_every_strategy() {
    let model = StubModel::good();
    let synth = SpeechSynthesizer::new(&model);
    for text in ["", "  \n\t ", "\u{000C}", "\u{00A0}\u{2003}"] {
        assert!(synth.synthesize_lazy(text.to_string(), None).next().is_none());
        assert!(synth.synthesize_batched(text.to_string(), None, None).unwrap().next().is_none());
        let mut p = synth.synthesize_parallel(text.to_string(), None, 2).unwrap();
        assert!(p.is_finished());
        assert!(p.dispatch().is_none());
        assert!(p.next_result().is_none());
        let mut r = synth.synthesize_streamed(text.to_string(), None, 1, 1).unwrap();
        assert!(r.run_inline(&model).is_empty());
    }
}

#[test]
fn all_strategies_agree_on_count_and_order() {
    let model = StubModel::good();
    let synth = SpeechSynthesizer::new(&model);
    let text = "Technology is not inevitable.\nPowerful drivers must exist.\nCheaper Communications\nThe first driver.\nAll of it.";
    let lazy = synth.synthesize_lazy(text.to_string(), None).collect_all();
    let batched = synth.synthesize_batched(text.to_string(), None, Some(2)).unwrap().collect_all();
    let parallel = synth.synthesize_parallel(text.to_string(), None, 3).unwrap().run_inline(&model);
    let streamed = synth.synthesize_streamed(text.to_string(), None, 2, 3).unwrap().run_inline(&model);
    assert_eq!(lazy.len(), 5);
    for rs in [&lazy, &batched, &parallel, &streamed] {
        assert_eq!(indices(rs), vec![0, 1, 2, 3, 4]);
    }
    assert_eq!(lazy, batched);
    assert_eq!(lazy, parallel);
    assert_eq!(lazy, streamed);
}

#[test]
fn parallel_failure_stays_at_its_place() {
    let model = StubModel { fail_on: vec!["B.".to_string()], unusable_on: vec![] };
    let synth = SpeechSynthesizer::new(&model);
    let mut s = synth.synthesize_parallel("A. B. C.".to_string(), None, 3).unwrap();
    let config = s.config();
    let u0 = s.dispatch().unwrap();
    let u1 = s.dispatch().unwrap();
    let u2 = s.dispatch().unwrap();
    assert!(s.dispatch().is_none());
    assert_eq!(s.in_flight(), 3);
    // completions arrive in reverse order
    assert!(s.complete(u2.index, model.infer(&u2.text, &config)));
    assert!(s.next_result().is_none());
    assert!(s.complete(u1.index, model.infer(&u1.text, &config)));
    assert!(s.next_result().is_none());
    assert!(s.complete(u0.index, model.infer(&u0.text, &config)));
    let r0 = s.next_result().unwrap();
    let r1 = s.next_result().unwrap();
    let r2 = s.next_result().unwrap();
    assert!(s.next_result().is_none());
    assert!(s.is_finished());
    assert!(matches!(r0, SynthesisResult::Success(ref a) if a.index == 0));
    assert!(matches!(r1, SynthesisResult::Failure(1, SynthError::Inference(_))));
    assert!(matches!(r2, SynthesisResult::Success(ref a) if a.index == 2));
}

#[test]
fn realtime_window_one_matches_lazy() {
    let model = StubModel::good();
    let synth = SpeechSynthesizer::new(&model);
    let text = "One. Two. Three. Four. Five.";
    let lazy = synth.synthesize_lazy(text.to_string(), None).collect_all();
    let mut s = synth.synthesize_streamed(text.to_string(), None, 1, 3).unwrap();
    let config = s.config();
    let mut out = vec![];
    while !s.is_finished() {
        let u = s.dispatch().unwrap();
        // with a window of one, nothing else may start before this unit is out
        assert!(s.dispatch().is_none());
        assert_eq!(s.in_flight(), 1);
        assert!(s.complete(u.index, model.infer(&u.text, &config)));
        out.push(s.next_result().unwrap());
    }
    assert_eq!(lazy.len(), 5);
    assert_eq!(out, lazy);
}

#[test]
fn in_flight_never_exceeds_workers_or_window() {
    let model = StubModel::good();
    let synth = SpeechSynthesizer::new(&model);
    let mut s = synth.synthesize_streamed("A. B. C. D. E. F. G.".to_string(), None, 4, 2).unwrap();
    let config = s.config();
    let a = s.dispatch().unwrap();
    let b = s.dispatch().unwrap();
    assert!(s.dispatch().is_none());
    assert_eq!(s.in_flight(), 2);
    assert!(s.complete(b.index, model.infer(&b.text, &config)));
    let c = s.dispatch().unwrap();
    assert!(s.complete(c.index, model.infer(&c.text, &config)));
    let d = s.dispatch().unwrap();
    // both workers busy
    assert!(s.dispatch().is_none());
    assert!(s.complete(a.index, model.infer(&a.text, &config)));
    // a worker is free, but four units past the head are out already
    assert!(s.dispatch().is_none());
    assert_eq!(s.next_result().unwrap().index(), 0);
    assert!(s.dispatch().is_some());
    assert!(s.in_flight() <= 2);
    assert!(s.complete(d.index, model.infer(&d.text, &config)));
}

#[test]
fn completion_of_unknown_unit_is_refused() {
    let model = StubModel::good();
    let synth = SpeechSynthesizer::new(&model);
    let mut s = synth.synthesize_parallel("A. B.".to_string(), None, 2).unwrap();
    assert!(!s.complete(0, Ok(vec![1])));
    let u = s.dispatch().unwrap();
    assert!(s.complete(u.index, Ok(vec![1])));
    assert!(!s.complete(u.index, Ok(vec![1])));
    assert!(!s.complete(7, Ok(vec![1])));
}

#[test]
fn unusable_model_fails_every_later_unit() {
    let model = StubModel { fail_on: vec![], unusable_on: vec!["B.".to_string()] };
    let synth = SpeechSynthesizer::new(&model);
    let rs = synth.synthesize_lazy("A. B. C. D.".to_string(), None).collect_all();
    assert_eq!(indices(&rs), vec![0, 1, 2, 3]);
    assert!(rs[0].is_success());
    for r in &rs[1..] {
        assert!(matches!(r, SynthesisResult::Failure(_, SynthError::ModelUnusable(m)) if m == "out of memory"));
    }
    let mut p = synth.synthesize_parallel("A. B. C. D.".to_string(), None, 2).unwrap();
    let prs = p.run_inline(&model);
    assert_eq!(prs, rs);
}

#[test]
fn output_config_is_kept() {
    let model = StubModel::good();
    let synth = SpeechSynthesizer::new(&model);
    let cfg = OutputConfig { rate: Some(50), volume: Some(50), pitch: Some(50), appended_silence_ms: None };
    let s = synth.synthesize_streamed(SCENARIO.to_string(), Some(cfg), 72, 3).unwrap();
    assert_eq!(s.config(), cfg);
    let d = synth.synthesize_parallel(SCENARIO.to_string(), None, 1).unwrap();
    assert_eq!(d.config(), OutputConfig::model_defaults());
}

#[test]
fn aggregator_reorders() {
    let mut agg: OrderedAggregator<&str> = OrderedAggregator::new(3);
    assert!(agg.insert(2, "c"));
    assert!(!agg.insert(2, "again"));
    assert!(!agg.insert(3, "out of range"));
    assert_eq!(agg.pop_ready(), None);
    assert!(agg.insert(0, "a"));
    assert_eq!(agg.pop_ready(), Some("a"));
    assert_eq!(agg.pop_ready(), None);
    assert!(!agg.insert(0, "late"));
    assert!(agg.insert(1, "b"));
    assert_eq!(agg.pending_count(), 2);
    assert_eq!(agg.pop_ready(), Some("b"));
    assert_eq!(agg.pop_ready(), Some("c"));
    assert!(agg.is_finished());
}

#[test]
fn cancel_stops_dispatch() {
    let model = StubModel::good();
    let synth = SpeechSynthesizer::new(&model);
    let mut s = synth.synthesize_parallel("A. B. C.".to_string(), None, 2).unwrap();
    let u = s.dispatch().unwrap();
    s.cancel();
    assert!(s.is_cancelled());
    assert!(s.dispatch().is_none());
    // the unit already under way may still come back
    assert!(s.complete(u.index, Ok(vec![3])));
    assert_eq!(s.next_result().unwrap().index(), 0);
    assert!(s.next_result().is_none());
    assert!(!s.is_finished());
}

#[test]
fn batched_unusable_model_fails_only_later_units() {
    let model = StubModel { fail_on: vec![], unusable_on: vec!["C.".to_string()] };
    let synth = SpeechSynthesizer::new(&model);
    let lazy = synth.synthesize_lazy("A. B. C. D. E.".to_string(), None).collect_all();
    let batched = synth.synthesize_batched("A. B. C. D. E.".to_string(), None, None).unwrap().collect_all();
    assert_eq!(batched, lazy);
    assert!(batched[0].is_success());
    assert!(batched[1].is_success());
    for r in &batched[2..] {
        assert!(matches!(r, SynthesisResult::Failure(_, SynthError::ModelUnusable(_))));
    }
    let small = synth.synthesize_batched("A. B. C. D. E.".to_string(), None, Some(2)).unwrap().collect_all();
    assert_eq!(small, lazy);
}

#[test]
fn lazy_accept_takes_the_outcome_for_the_pending_unit() {
    let model = StubModel::good();
    let synth = SpeechSynthesizer::new(&model);
    let mut s = synth.synthesize_lazy(SCENARIO.to_string(), None);
    assert_eq!(s.pending().text, "Hello there.");
    let r0 = s.accept(Ok(vec![1, 2]));
    assert!(matches!(r0, SynthesisResult::Success(ref a) if a.index == 0 && a.samples == vec![1, 2]));
    assert_eq!(s.pending().text, "How are you?");
    let r1 = s.accept(Err(SynthError::ModelUnusable("gone".to_string())));
    assert!(matches!(r1, SynthesisResult::Failure(1, SynthError::ModelUnusable(_))));
    assert!(s.next().is_none());
}

#[test]
fn batched_runs_the_whole_batch_first() {
    let model = StubModel::good();
    let synth = SpeechSynthesizer::new(&model);
    let mut s = synth.synthesize_batched("A. B. C.".to_string(), None, None).unwrap();
    assert_eq!(s.buffered(), 0);
    assert_eq!(s.next().unwrap().index(), 0);
    assert_eq!(s.buffered(), 2);
}
