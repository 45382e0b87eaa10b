use batcherbird::error::BatcherbirdError;
use batcherbird::loop_detection::{
    rank, Crossfade, LoopCandidate, LoopDetectionConfig, LoopDetector, LoopFailure, LoopScore,
    Span,
};

fn words(v: &[f32]) -> Vec<u32> {
    v.iter().map(|x| x.to_bits()).collect()
}

fn config(min_ms: u32, max_ms: u32, cap: usize, crossfade_ms: u32) -> LoopDetectionConfig {
    LoopDetectionConfig {
        min_loop_length_ms: min_ms,
        max_loop_length_ms: max_ms,
        max_candidates: cap,
        correlation_threshold: 0.8_f32.to_bits(),
        crossfade_ms,
    }
}

fn correlation(a: &[f32], b: &[f32]) -> f32 {
    let len = a.len().min(b.len());
    if len < 2 {
        return 0.0;
    }
    let ma: f32 = a.iter().take(len).sum::<f32>() / len as f32;
    let mb: f32 = b.iter().take(len).sum::<f32>() / len as f32;
    let (mut num, mut sa, mut sb) = (0.0_f32, 0.0_f32, 0.0_f32);
    for i in 0..len {
        let (da, db) = (a[i] - ma, b[i] - mb);
        num += da * db;
        sa += da * da;
        sb += db * db;
    }
    let den = (sa * sb).sqrt();
    if den > 0.0 {
        (num / den).abs()
    } else {
        0.0
    }
}

fn quality(c: &LoopCandidate, corr: f32) -> f32 {
    let ideal = 44100.0_f32;
    let ratio = (c.length_samples as f32 / ideal).min(ideal / c.length_samples as f32);
    (corr * 0.7 + if c.zero_crossing_aligned { 0.2 } else { 0.0 } + ratio * 0.1).clamp(0.0, 1.0)
}

#[test]
fn test_zero_crossing_detection() {
    let detector = LoopDetector::new(LoopDetectionConfig::default());
    let audio = words(&[-1.0, -0.5, 0.0, 0.5, 1.0, 0.5, 0.0, -0.5, -1.0]);
    let crossings = detector.find_zero_crossings(&audio);

    // Should find crossings around indices where sign changes
    assert!(!crossings.is_empty());
    assert_eq!(crossings, vec![3, 6]);
}

#[test]
fn zero_counts_as_not_positive() {
    let d = LoopDetector::new(LoopDetectionConfig::default());
    assert_eq!(d.find_zero_crossings(&words(&[0.0, 0.0, 0.0])), Vec::<usize>::new());
    assert_eq!(d.find_zero_crossings(&words(&[0.0, 1.0, 0.0, -1.0])), vec![1, 2]);
    assert_eq!(d.find_zero_crossings(&words(&[-0.0, 1.0, -0.0])), vec![1, 2]);
    assert_eq!(d.find_zero_crossings(&words(&[])), Vec::<usize>::new());
    assert_eq!(d.find_zero_crossings(&words(&[1.0])), Vec::<usize>::new());
    // a sample that is no number crosses nothing
    assert_eq!(d.find_zero_crossings(&words(&[-1.0, f32::NAN, 1.0])), Vec::<usize>::new());
}

#[test]
fn crossings_agree_with_the_comparison() {
    let d = LoopDetector::new(LoopDetectionConfig::default());
    let audio: Vec<f32> = (0..500).map(|i| ((i * 37 % 101) as f32 - 50.0) / 50.0).collect();
    let mut expected = Vec::new();
    for i in 1..audio.len() {
        if (audio[i - 1] <= 0.0 && audio[i] > 0.0) || (audio[i - 1] > 0.0 && audio[i] <= 0.0) {
            expected.push(i);
        }
    }
    assert_eq!(d.find_zero_crossings(&words(&audio)), expected);
}

#[test]
fn default_loop_configuration() {
    let c = LoopDetectionConfig::default();
    assert_eq!(c.min_loop_length_ms, 100);
    assert_eq!(c.max_loop_length_ms, 4000);
    assert_eq!(c.max_candidates, 20);
    assert_eq!(f32::from_bits(c.correlation_threshold), 0.8);
    assert_eq!(c.crossfade_ms, 10);
}

#[test]
fn candidates_are_pairs_in_order() {
    // 1 kHz: loops of 10 to 30 samples
    let d = LoopDetector::new(config(10, 30, 20, 0));
    let got = d.generate_loop_candidates(&[5, 10, 20, 40, 45], 100, 1000);
    let pairs: Vec<(usize, usize, usize)> =
        got.iter().map(|c| (c.start_sample, c.end_sample, c.length_samples)).collect();
    assert_eq!(pairs, vec![(5, 20, 15), (10, 20, 10), (10, 40, 30), (20, 40, 20), (20, 45, 25)]);
    for c in &got {
        assert!(c.zero_crossing_aligned);
        assert_eq!(f32::from_bits(c.quality_score), 0.0);
        assert_eq!(f32::from_bits(c.correlation), 0.0);
    }
    // the cap cuts the list
    let capped = LoopDetector::new(config(10, 30, 2, 0));
    let got = capped.generate_loop_candidates(&[5, 10, 20, 40, 45], 100, 1000);
    let pairs: Vec<(usize, usize)> = got.iter().map(|c| (c.start_sample, c.end_sample)).collect();
    assert_eq!(pairs, vec![(5, 20), (10, 20)]);
    let none = LoopDetector::new(config(10, 30, 0, 0));
    assert!(none.generate_loop_candidates(&[5, 10, 20, 40, 45], 100, 1000).is_empty());
    // an end beyond the signal is no loop end
    let got = d.generate_loop_candidates(&[5, 10, 20, 40, 45], 40, 1000);
    let pairs: Vec<(usize, usize)> = got.iter().map(|c| (c.start_sample, c.end_sample)).collect();
    assert_eq!(pairs, vec![(5, 20), (10, 20)]);
    // crossings out of order give no backward loops
    assert!(d.generate_loop_candidates(&[40, 20, 5], 100, 1000).is_empty());
}

#[test]
fn too_few_crossings() {
    let d = LoopDetector::new(config(1, 1000, 20, 0));
    let r = d.detect_loop_points(&words(&[-1.0, 1.0, -1.0, 1.0]), 1000, &[]).unwrap();
    assert!(!r.success);
    assert!(r.best_candidate.is_none());
    assert!(r.all_candidates.is_empty());
    assert_eq!(r.failure_reason, Some(LoopFailure::InsufficientCrossings));
    assert_eq!(r.failure_reason.unwrap().reason(), "Insufficient zero crossings found");
    assert!(d.propose(&words(&[-1.0, 1.0, -1.0, 1.0]), 1000).is_empty());
}

#[test]
fn no_candidates() {
    // five crossings, but every loop is shorter than a second
    let d = LoopDetector::new(config(1000, 4000, 20, 0));
    let audio = words(&[-1.0, 1.0, -1.0, 1.0, -1.0, 1.0]);
    let r = d.detect_loop_points(&audio, 1000, &[]).unwrap();
    assert!(!r.success);
    assert_eq!(r.failure_reason, Some(LoopFailure::NoCandidates));
    assert_eq!(r.failure_reason.unwrap().reason(), "No valid loop candidates found");
}

#[test]
fn scores_must_match_the_candidates() {
    let d = LoopDetector::new(config(2, 4, 20, 0));
    let audio = words(&[-1.0, 1.0, -1.0, 1.0, -1.0, 1.0]);
    let pairs: Vec<(usize, usize)> =
        d.propose(&audio, 1000).iter().map(|c| (c.start_sample, c.end_sample)).collect();
    assert_eq!(pairs, vec![(1, 3), (1, 4), (1, 5), (2, 4), (2, 5), (3, 5)]);
    let r = d.detect_loop_points(&audio, 1000, &[]);
    assert_eq!(r.err(), Some(BatcherbirdError::TraceMismatch { expected: 6, found: 0 }));
}

#[test]
fn ranking_is_by_falling_quality_and_stable() {
    let c = |start: usize, q: f32| LoopCandidate {
        start_sample: start,
        end_sample: start + 10,
        length_samples: 10,
        quality_score: q.to_bits(),
        zero_crossing_aligned: true,
        correlation: 0,
    };
    let ranked = rank(&vec![c(0, 0.25), c(1, 0.75), c(2, 0.5), c(3, 0.75), c(4, 0.0), c(5, 1.0)]);
    let order: Vec<usize> = ranked.iter().map(|x| x.start_sample).collect();
    assert_eq!(order, vec![5, 1, 3, 2, 0, 4]);
    assert!(rank(&vec![]).is_empty());
}

#[test]
fn low_quality_fails() {
    let d = LoopDetector::new(config(2, 4, 20, 0));
    let audio = words(&[-1.0, 1.0, -1.0, 1.0, -1.0, 1.0]);
    let scores: Vec<LoopScore> = (0..6)
        .map(|i| LoopScore { correlation: 0.1_f32.to_bits(), quality: (0.05 * i as f32).to_bits() })
        .collect();
    let r = d.detect_loop_points(&audio, 1000, &scores).unwrap();
    assert!(!r.success);
    assert_eq!(r.failure_reason, Some(LoopFailure::LowQuality));
    assert_eq!(r.failure_reason.unwrap().reason(), "No high-quality loop candidates found");
    assert_eq!(r.all_candidates.len(), 6);
    let best = r.best_candidate.unwrap();
    assert_eq!(best, r.all_candidates[0]);
    assert_eq!((best.start_sample, best.end_sample), (3, 5));
    assert_eq!(f32::from_bits(best.quality_score), 0.05 * 5.0);
    assert_eq!(f32::from_bits(best.correlation), 0.1);
    // a quality of exactly one half is not above it
    let half: Vec<LoopScore> =
        (0..6).map(|_| LoopScore { correlation: 0, quality: 0.5_f32.to_bits() }).collect();
    assert!(!d.detect_loop_points(&audio, 1000, &half).unwrap().success);
    let above: Vec<LoopScore> =
        (0..6).map(|_| LoopScore { correlation: 0, quality: 0.500001_f32.to_bits() }).collect();
    let r = d.detect_loop_points(&audio, 1000, &above).unwrap();
    assert!(r.success);
    assert_eq!(r.failure_reason, None);
    // among equals the candidate proposed first is the best
    assert_eq!(r.best_candidate.map(|c| (c.start_sample, c.end_sample)), Some((1, 3)));
}

#[test]
fn loop_on_pure_sine() {
    let rate = 44100u32;
    let audio: Vec<f32> = (0..rate as usize)
        .map(|i| (2.0 * std::f32::consts::PI * 440.0 * i as f32 / rate as f32).sin())
        .collect();
    let w = words(&audio);
    let d = LoopDetector::new(LoopDetectionConfig::default());
    let crossings = d.find_zero_crossings(&w);
    // two crossings per period: one about every 50 samples
    assert!(crossings.len() >= 878 && crossings.len() <= 881);
    for pair in crossings.windows(2) {
        let gap = pair[1] - pair[0];
        assert!(gap == 50 || gap == 51);
    }
    let candidates = d.propose(&w, rate);
    assert_eq!(candidates.len(), 20);
    let scores: Vec<LoopScore> = candidates
        .iter()
        .map(|c| {
            let corr = match d.correlation_windows(audio.len(), c.start_sample, c.end_sample) {
                Some((s, e)) => correlation(&audio[s.from..s.to], &audio[e.from..e.to]),
                None => 0.0,
            };
            LoopScore { correlation: corr.to_bits(), quality: quality(c, corr).to_bits() }
        })
        .collect();
    let r = d.detect_loop_points(&w, rate, &scores).unwrap();
    assert!(r.success);
    assert_eq!(r.failure_reason, None);
    let best = r.best_candidate.unwrap();
    assert!(f32::from_bits(best.correlation) > 0.99);
    assert!(f32::from_bits(best.quality_score) > 0.9);
    // the loop runs between two crossings, which lie half a period apart:
    // its length is a multiple of that, within a sample
    let interval = rate as f32 / 880.0;
    let intervals = best.length_samples as f32 / interval;
    assert!((intervals - intervals.round()).abs() * interval <= 1.0);
    // every candidate starts and ends on a zero crossing
    for c in &r.all_candidates {
        assert!(crossings.contains(&c.start_sample));
        assert!(crossings.contains(&c.end_sample));
        assert!(c.start_sample < c.end_sample);
    }
    // best first
    for pair in r.all_candidates.windows(2) {
        assert!(f32::from_bits(pair[0].quality_score) >= f32::from_bits(pair[1].quality_score));
    }
}

#[test]
fn correlation_windows_reach_equally_far() {
    let d = LoopDetector::new(LoopDetectionConfig::default());
    // a signal of 100000 samples: windows of 1024
    assert_eq!(
        d.correlation_windows(100_000, 5000, 50_000),
        Some((Span { from: 4488, to: 5512 }, Span { from: 49_488, to: 50_512 }))
    );
    // near the ends of the signal both windows are cut alike
    assert_eq!(
        d.correlation_windows(100_000, 100, 99_900),
        Some((Span { from: 0, to: 200 }, Span { from: 99_800, to: 100_000 }))
    );
    assert_eq!(
        d.correlation_windows(100_000, 0, 100_000),
        None
    );
    // a signal of 1000 samples: windows of 100
    assert_eq!(
        d.correlation_windows(1000, 500, 700),
        Some((Span { from: 450, to: 550 }, Span { from: 650, to: 750 }))
    );
    // a signal too short for a window
    assert_eq!(d.correlation_windows(9, 2, 5), None);
    assert_eq!(d.correlation_windows(19, 2, 5), None);
    assert_eq!(d.correlation_windows(20, 2, 5), Some((Span { from: 1, to: 3 }, Span { from: 4, to: 6 })));
    // a loop point beyond the signal
    assert_eq!(d.correlation_windows(1000, 500, 1001), None);
}

#[test]
fn crossfades() {
    let candidate = LoopCandidate {
        start_sample: 1000,
        end_sample: 3000,
        length_samples: 2000,
        quality_score: 0,
        zero_crossing_aligned: true,
        correlation: 0,
    };
    // 10 ms at 48 kHz
    let d = LoopDetector::new(config(100, 4000, 20, 10));
    assert_eq!(
        d.apply_loop_with_crossfade(10_000, &candidate, 48000),
        Some(Crossfade { from: 1000, source: 2520, length: 480, count: 480 })
    );
    // the signal ends within the faded part
    assert_eq!(
        d.apply_loop_with_crossfade(1100, &candidate, 48000),
        Some(Crossfade { from: 1000, source: 2520, length: 480, count: 0 })
    );
    assert_eq!(
        d.apply_loop_with_crossfade(2600, &candidate, 48000),
        Some(Crossfade { from: 1000, source: 2520, length: 480, count: 80 })
    );
    // no crossfade configured
    let none = LoopDetector::new(config(100, 4000, 20, 0));
    assert_eq!(none.apply_loop_with_crossfade(10_000, &candidate, 48000), None);
    // a crossfade of half the loop or more is skipped
    let long = LoopDetector::new(config(100, 4000, 20, 1000));
    assert_eq!(long.apply_loop_with_crossfade(10_000, &candidate, 1000), None);
    let nearly = LoopDetector::new(config(100, 4000, 20, 999));
    assert_eq!(
        nearly.apply_loop_with_crossfade(10_000, &candidate, 1000),
        Some(Crossfade { from: 1000, source: 2001, length: 999, count: 999 })
    );
}
