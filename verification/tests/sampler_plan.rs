use batcherbird::capture::{CaptureTap, StreamFormat};
use batcherbird::error::BatcherbirdError;
use batcherbird::plan::{
    abort_actions, build_plan, rig_of, Action, Ending, Progress, Report, Rig, Step,
};
use batcherbird::sampler::{
    AudioLevelDetector, AudioLevels, LevelMeterState, SamplingConfig, SamplingEngine,
};

fn cfg() -> SamplingConfig {
    SamplingConfig {
        note_duration_ms: 2000,
        release_time_ms: 500,
        pre_delay_ms: 100,
        post_delay_ms: 100,
        midi_channel: 0,
        velocity: 100,
    }
}

fn protocol(c: &SamplingConfig, note: u8, velocity: u8) -> Vec<Action> {
    vec![
        Action::ClearBuffer,
        Action::StartRecording,
        Action::Sleep(c.pre_delay_ms),
        Action::ChannelPanic(c.midi_channel),
        Action::Sleep(50),
        Action::MarkGateStart,
        Action::NoteOn { channel: c.midi_channel, note, velocity },
        Action::Sleep(c.note_duration_ms),
        Action::NoteOff { channel: c.midi_channel, note, velocity },
        Action::MarkGateEnd,
        Action::Sleep(c.release_time_ms),
        Action::Sleep(c.post_delay_ms),
        Action::StopRecording,
        Action::Snapshot { note, velocity },
    ]
}

#[test]
fn default_timing() {
    let c = SamplingConfig::default();
    assert_eq!(
        c,
        SamplingConfig {
            note_duration_ms: 2000,
            release_time_ms: 1000,
            pre_delay_ms: 100,
            post_delay_ms: 100,
            midi_channel: 0,
            velocity: 100,
        }
    );
}

#[test]
fn single_c4() {
    let engine = SamplingEngine::new(cfg());
    let plan = engine.sample_single_note_blocking(60).unwrap();
    let mut expected =
        vec![Action::MidiPanic, Action::Sleep(100), Action::OpenStream, Action::ArmTap];
    expected.extend(protocol(&cfg(), 60, 100));
    expected.extend(vec![Action::DisarmTap, Action::CloseStream, Action::MidiPanic]);
    assert_eq!(plan, expected);
    // 2.7 s at 48 kHz mono
    assert_eq!(cfg().expected_samples(48000, 1), 129_600);
    assert!(cfg().has_expected_length(129_600, 48000, 1, 512));
    assert!(cfg().has_expected_length(129_600 + 1024, 48000, 1, 512));
    assert!(cfg().has_expected_length(129_600 - 1024, 48000, 1, 512));
    assert!(!cfg().has_expected_length(129_600 + 1025, 48000, 1, 512));
    assert!(!cfg().has_expected_length(129_600 - 1025, 48000, 1, 512));
    assert!(!cfg().has_expected_length(0, 48000, 1, 512));
}

#[test]
fn expected_samples_round_up_per_channel() {
    let c = SamplingConfig {
        note_duration_ms: 1,
        release_time_ms: 0,
        pre_delay_ms: 0,
        post_delay_ms: 0,
        midi_channel: 0,
        velocity: 100,
    };
    // 1 ms at 44.1 kHz: 44.1 samples, rounded up to 45, on two channels
    assert_eq!(c.expected_samples(44100, 2), 90);
    assert_eq!(c.expected_samples(0, 2), 0);
    let long = SamplingConfig {
        note_duration_ms: u64::MAX,
        release_time_ms: u64::MAX,
        pre_delay_ms: u64::MAX,
        post_delay_ms: u64::MAX,
        midi_channel: 0,
        velocity: 100,
    };
    let ms = 4 * (u64::MAX as u128);
    assert_eq!(
        long.expected_samples(u32::MAX, u16::MAX),
        (u16::MAX as u128) * ((ms * (u32::MAX as u128) + 999) / 1000)
    );
}

#[test]
fn range_c2_to_c3() {
    let engine = SamplingEngine::new(cfg());
    let plan = engine.sample_note_range_blocking(36, 48).unwrap();
    let count = |f: &dyn Fn(&Action) -> bool| plan.iter().filter(|a| f(a)).count();
    assert_eq!(count(&|a| matches!(a, Action::Snapshot { .. })), 13);
    assert_eq!(count(&|a| *a == Action::OpenStream), 1);
    assert_eq!(count(&|a| *a == Action::CloseStream), 1);
    assert_eq!(count(&|a| *a == Action::Sleep(300)), 12);
    assert_eq!(count(&|a| matches!(a, Action::ChannelPanic(0))), 13);
    assert_eq!(
        count(&|a| matches!(a, Action::NoteOn { .. }) || matches!(a, Action::NoteOff { .. })),
        26
    );
    assert_eq!(count(&|a| *a == Action::MidiPanic), 2);
    assert_eq!(plan.len(), 4 + 13 * 14 + 12 + 3);
    assert_eq!(plan[0], Action::MidiPanic);
    assert_eq!(plan[plan.len() - 1], Action::MidiPanic);
    // the notes come in rising order
    let notes: Vec<u8> = plan
        .iter()
        .filter_map(|a| if let Action::NoteOn { note, .. } = a { Some(*note) } else { None })
        .collect();
    assert_eq!(notes, (36..=48).collect::<Vec<u8>>());
    // every protocol starts with an empty buffer
    for (i, a) in plan.iter().enumerate() {
        if *a == Action::StartRecording {
            assert_eq!(plan[i - 1], Action::ClearBuffer);
            assert!(!rig_of(&plan, i).recording);
        }
    }
}

#[test]
fn velocities_change_slowest() {
    let engine = SamplingEngine::new(cfg());
    let plan = engine.sample_velocity_layers(&vec![64, 127], 60, 62).unwrap();
    let played: Vec<(u8, u8)> = plan
        .iter()
        .filter_map(|a| {
            if let Action::NoteOn { note, velocity, .. } = a {
                Some((*velocity, *note))
            } else {
                None
            }
        })
        .collect();
    assert_eq!(played, vec![(64, 60), (64, 61), (64, 62), (127, 60), (127, 61), (127, 62)]);
    assert_eq!(plan.iter().filter(|a| **a == Action::OpenStream).count(), 1);
    assert_eq!(plan.iter().filter(|a| **a == Action::Sleep(300)).count(), 5);
    assert_eq!(plan, build_plan(&cfg(), &vec![64, 127], 60, 62));
    // an empty list means the configured velocity
    assert_eq!(
        engine.sample_velocity_layers(&vec![], 60, 62).unwrap(),
        engine.sample_note_range_blocking(60, 62).unwrap()
    );
}

#[test]
fn invalid_requests_are_refused() {
    let engine = SamplingEngine::new(cfg());
    assert_eq!(
        engine.sample_note_range_blocking(50, 40),
        Err(BatcherbirdError::InvalidRange { start: 50, end: 40 })
    );
    assert_eq!(
        engine.sample_note_range_blocking(100, 128),
        Err(BatcherbirdError::InvalidRange { start: 100, end: 128 })
    );
    assert_eq!(
        engine.sample_single_note_blocking(128),
        Err(BatcherbirdError::InvalidNote { note: 128 })
    );
    assert_eq!(
        engine.sample_velocity_layers(&vec![64, 0, 200], 60, 62),
        Err(BatcherbirdError::InvalidVelocity { velocity: 0 })
    );
    assert_eq!(
        engine.sample_velocity_layers(&vec![64, 128], 70, 62),
        Err(BatcherbirdError::InvalidRange { start: 70, end: 62 })
    );
    let silent = SamplingEngine::new(SamplingConfig { velocity: 0, ..cfg() });
    assert_eq!(
        silent.sample_single_note_blocking(60),
        Err(BatcherbirdError::InvalidVelocity { velocity: 0 })
    );
    assert_eq!(
        silent.sample_note_range_blocking(60, 61),
        Err(BatcherbirdError::InvalidVelocity { velocity: 0 })
    );
    assert!(engine.sample_note_range_blocking(0, 127).is_ok());
    assert!(engine.sample_single_note_blocking(127).is_ok());
}

#[test]
fn a_stopped_session_is_wound_down() {
    let engine = SamplingEngine::new(cfg());
    let plan = engine.sample_note_range_blocking(36, 48).unwrap();
    // nothing went through: only the panic is owed
    assert_eq!(abort_actions(&plan, 0), vec![Action::MidiPanic]);
    // opening the stream failed
    assert_eq!(abort_actions(&plan, 2), vec![Action::MidiPanic]);
    // the stream is open, the tap not yet armed
    assert_eq!(abort_actions(&plan, 3), vec![Action::CloseStream, Action::MidiPanic]);
    // the Note-On of the first note failed
    assert_eq!(
        abort_actions(&plan, 4 + 6),
        vec![Action::StopRecording, Action::DisarmTap, Action::CloseStream, Action::MidiPanic]
    );
    // cancelled in the gap after the first note
    assert_eq!(
        abort_actions(&plan, 4 + 14),
        vec![Action::DisarmTap, Action::CloseStream, Action::MidiPanic]
    );
    // the closing panic failed
    assert_eq!(abort_actions(&plan, plan.len() - 1), vec![Action::MidiPanic]);
    assert_eq!(abort_actions(&plan, plan.len()), vec![Action::MidiPanic]);
    assert_eq!(abort_actions(&plan, plan.len() + 5), vec![Action::MidiPanic]);
    // whatever the point of failure, one stream is opened at most and closed again
    for done in 0..=plan.len() {
        let mut run: Vec<Action> = plan[..done].to_vec();
        run.extend(abort_actions(&plan, done));
        let opened = run.iter().filter(|a| **a == Action::OpenStream).count();
        let closed = run.iter().filter(|a| **a == Action::CloseStream).count();
        assert!(opened <= 1);
        assert_eq!(opened, closed);
        assert_eq!(run[run.len() - 1], Action::MidiPanic);
        assert_eq!(
            rig_of(&run, run.len()),
            Rig { stream_open: false, tap_armed: false, recording: false }
        );
    }
}

#[test]
fn the_tap_keeps_frames_only_while_recording() {
    let mut tap = CaptureTap::new();
    assert!(!tap.recording_active);
    tap.on_buffer(&[1, 2, 3]);
    assert!(tap.buffer.is_empty());
    tap.set_recording(true);
    tap.on_buffer(&[4, 5]);
    tap.on_buffer(&[6]);
    assert_eq!(tap.buffer, vec![4, 5, 6]);
    tap.set_recording(false);
    tap.on_buffer(&[7]);
    assert_eq!(tap.buffer, vec![4, 5, 6]);
    let frames = tap.snapshot();
    assert_eq!(frames, vec![4, 5, 6]);
    assert!(tap.buffer.is_empty());
    tap.set_recording(true);
    tap.on_buffer(&[8]);
    tap.clear();
    assert!(tap.buffer.is_empty());
    assert!(tap.recording_active);
}

#[test]
fn three_stream_formats_are_supported() {
    assert!(StreamFormat::Float32.is_supported());
    assert!(StreamFormat::Signed16.is_supported());
    assert!(StreamFormat::Unsigned16.is_supported());
    assert!(!StreamFormat::Other.is_supported());
    assert_eq!(StreamFormat::Signed16.require("I16".to_string()), Ok(StreamFormat::Signed16));
    assert_eq!(
        StreamFormat::Other.require("I8".to_string()),
        Err(BatcherbirdError::UnsupportedFormat("I8".to_string()))
    );
}

#[test]
fn level_detector_tracks_peak_and_window() {
    let mut d = AudioLevelDetector::new(48000);
    assert_eq!(d.rms_window_size, 14400);
    assert_eq!(AudioLevelDetector::new(44100).rms_window_size, 13230);
    let words = |v: &[f32]| v.iter().map(|x| x.to_bits()).collect::<Vec<u32>>();
    assert!(!d.process_samples(&words(&[0.1, -0.5, 0.25, f32::NAN])));
    assert_eq!(f32::from_bits(d.peak_level), 0.5);
    assert_eq!(d.rms_sample_count, 4);
    assert!(!d.process_samples(&words(&[0.3])));
    assert_eq!(f32::from_bits(d.peak_level), 0.5);
    assert!(!d.process_samples(&vec![0; 14394]));
    assert_eq!(d.rms_sample_count, 14399);
    // the window fills: the count starts again
    assert!(d.process_samples(&words(&[-0.75])));
    assert_eq!(d.rms_sample_count, 0);
    assert_eq!(f32::from_bits(d.peak_level), 0.75);
    d.reset_peak();
    assert_eq!(d.peak_level, 0);
    assert!(d.process_samples(&vec![0; 20000]));
    assert_eq!(d.rms_sample_count, 0);
}

#[test]
fn the_meter_publishes_levels() {
    let mut meter = LevelMeterState::new();
    assert_eq!(meter.get_levels(), AudioLevels::default());
    assert_eq!(LevelMeterState::default().get_levels(), AudioLevels::default());
    let levels = AudioLevels {
        peak: 0.5_f32.to_bits(),
        rms: 0.25_f32.to_bits(),
        peak_db: (-6.0_f32).to_bits(),
        rms_db: (-12.0_f32).to_bits(),
    };
    meter.update_levels(levels);
    assert_eq!(meter.get_levels(), levels);
    let engine = SamplingEngine::new(cfg());
    assert_eq!(engine.get_audio_levels(), AudioLevels::default());
}

#[test]
fn underruns_are_tolerated_up_to_a_point() {
    let mut counter = batcherbird::capture::UnderrunCounter::new(2);
    assert_eq!(counter.report(), None);
    assert_eq!(counter.report(), None);
    assert_eq!(counter.report(), Some(BatcherbirdError::CaptureUnderrun { reports: 3 }));
    assert_eq!(counter.report(), Some(BatcherbirdError::CaptureUnderrun { reports: 4 }));
    let mut strict = batcherbird::capture::UnderrunCounter::new(0);
    assert_eq!(strict.report(), Some(BatcherbirdError::CaptureUnderrun { reports: 1 }));
    let mut full = batcherbird::capture::UnderrunCounter { reports: u32::MAX, tolerated: u32::MAX };
    assert_eq!(full.report(), None);
    assert_eq!(full.reports, u32::MAX);
}

#[test]
fn segments_are_checked() {
    let good = batcherbird::sampler::Sample {
        note: 60,
        velocity: 100,
        audio_data: vec![0; 6],
        sample_rate: 48000,
        channels: 2,
        recorded_at: 0,
        midi_timing: 0,
        audio_timing: 0,
    };
    assert_eq!(good.check(), Ok(()));
    let mut s = good.clone();
    s.note = 128;
    s.velocity = 0;
    assert_eq!(s.check(), Err(BatcherbirdError::InvalidNote { note: 128 }));
    s.note = 0;
    assert_eq!(s.check(), Err(BatcherbirdError::InvalidVelocity { velocity: 0 }));
    s.velocity = 128;
    assert_eq!(s.check(), Err(BatcherbirdError::InvalidVelocity { velocity: 128 }));
    s.velocity = 1;
    s.channels = 4;
    assert_eq!(s.check(), Err(BatcherbirdError::UnsupportedLayout));
    s.channels = 0;
    assert_eq!(s.check(), Err(BatcherbirdError::UnsupportedLayout));
    s.channels = 3;
    assert_eq!(s.check(), Ok(()));
    s.audio_data.clear();
    assert_eq!(s.check(), Ok(()));
}

const FINE: Report = Report { failed: false, fault: false, cancel: false };

fn drive(plan: &[Action], reports: &dyn Fn(usize, &Action) -> Report) -> (Vec<Action>, Ending) {
    let mut progress = Progress::new(plan.to_vec());
    let mut handed = Vec::new();
    let mut report = FINE;
    loop {
        match progress.advance(report) {
            Step::Do(action) => {
                report = reports(handed.len(), &action);
                handed.push(action);
            }
            Step::Finish(ending) => {
                assert_eq!(progress.how_it_ended(), Some(ending));
                assert_eq!(progress.advance(FINE), Step::Finish(ending));
                return (handed, ending);
            }
        }
    }
}

#[test]
fn a_session_runs_its_plan_to_the_end() {
    let plan = SamplingEngine::new(cfg()).sample_note_range_blocking(60, 62).unwrap();
    let (handed, ending) = drive(&plan, &|_, _| FINE);
    assert_eq!(handed, plan);
    assert_eq!(ending, Ending::Completed);
}

#[test]
fn a_failed_action_stops_the_session() {
    let plan = SamplingEngine::new(cfg()).sample_note_range_blocking(60, 62).unwrap();
    // the second Note-On fails
    let failing = 4 + 15 + 6;
    let (handed, ending) = drive(&plan, &|i, _| Report { failed: i == failing, ..FINE });
    assert_eq!(ending, Ending::Failed);
    let mut expected: Vec<Action> = plan[..=failing].to_vec();
    expected.extend(vec![
        Action::StopRecording,
        Action::DisarmTap,
        Action::CloseStream,
        Action::MidiPanic,
    ]);
    assert_eq!(handed, expected);
    // failures while winding down change nothing
    let (again, ending) = drive(&plan, &|i, _| Report { failed: i >= failing, ..FINE });
    assert_eq!(again, expected);
    assert_eq!(ending, Ending::Failed);
    // the stream could not be opened: there is none to close
    let (handed, ending) = drive(&plan, &|i, _| Report { failed: i == 2, ..FINE });
    assert_eq!(
        handed,
        vec![Action::MidiPanic, Action::Sleep(100), Action::OpenStream, Action::MidiPanic]
    );
    assert_eq!(ending, Ending::Failed);
}

#[test]
fn a_fatal_stream_error_stops_the_session_at_once() {
    let plan = SamplingEngine::new(cfg()).sample_single_note_blocking(60).unwrap();
    // reported after recording was switched on
    let (handed, ending) = drive(&plan, &|i, _| Report { fault: i == 5, ..FINE });
    assert_eq!(ending, Ending::Failed);
    let mut expected: Vec<Action> = plan[..=5].to_vec();
    expected.extend(vec![
        Action::StopRecording,
        Action::DisarmTap,
        Action::CloseStream,
        Action::MidiPanic,
    ]);
    assert_eq!(handed, expected);
}

#[test]
fn a_cancelled_session_stops_before_the_next_wait() {
    let plan = SamplingEngine::new(cfg()).sample_note_range_blocking(60, 62).unwrap();
    // asked for while the first Note-On is written: the wait that holds the note is not begun
    let (handed, ending) = drive(&plan, &|i, _| Report { cancel: i >= 10, ..FINE });
    assert_eq!(ending, Ending::Cancelled);
    let mut expected: Vec<Action> = plan[..=10].to_vec();
    expected.extend(vec![
        Action::StopRecording,
        Action::DisarmTap,
        Action::CloseStream,
        Action::MidiPanic,
    ]);
    assert_eq!(handed, expected);
    // asked for from the start: the opening panic is sent, its settling wait is not begun
    let (handed, ending) = drive(&plan, &|_, _| Report { cancel: true, ..FINE });
    assert_eq!(handed, vec![Action::MidiPanic, Action::MidiPanic]);
    assert_eq!(ending, Ending::Cancelled);
    // asked for after the last wait: the session completes
    let last_wait = plan.iter().rposition(|a| matches!(a, Action::Sleep(_))).unwrap();
    let (handed, ending) = drive(&plan, &|i, _| Report { cancel: i >= last_wait, ..FINE });
    assert_eq!(handed, plan);
    assert_eq!(ending, Ending::Completed);
    // an empty plan completes at once
    let (handed, ending) = drive(&[], &|_, _| FINE);
    assert!(handed.is_empty());
    assert_eq!(ending, Ending::Completed);
}
