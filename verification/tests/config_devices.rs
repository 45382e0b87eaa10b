use batcherbird::audio::AudioManager;
use batcherbird::config::{
    first_invalid_velocity, AudioConfig, Config, MidiConfig, NoteRange, SamplingConfig,
};
use batcherbird::device::{DeviceManager, DeviceType};
use batcherbird::error::BatcherbirdError;
use batcherbird::session::{Session, SessionManager};

#[test]
fn default_configuration() {
    let c = Config::default();
    assert_eq!(c.midi.device_name, "");
    assert_eq!(c.midi.channel, 1);
    assert_eq!(c.midi.program_change_delay_ms, 50);
    assert_eq!(c.audio.device_name, "");
    assert_eq!((c.audio.sample_rate, c.audio.bit_depth, c.audio.channels), (48000, 24, 2));
    assert_eq!(c.sampling.note_range, NoteRange { start: 36, end: 84 });
    assert_eq!(c.sampling.velocities, vec![64, 96, 127]);
    assert_eq!(c.sampling.note_duration_ms, 2000);
    assert_eq!(c.sampling.release_time_ms, 1000);
    assert_eq!(c.sampling.pre_delay_ms, 100);
    // the channel goes on the wire counted from 0
    assert_eq!(c.validate(), Ok(0));
    assert_eq!(
        c.session_timing(),
        Ok(batcherbird::sampler::SamplingConfig {
            note_duration_ms: 2000,
            release_time_ms: 1000,
            pre_delay_ms: 100,
            post_delay_ms: 100,
            midi_channel: 0,
            velocity: 64,
        })
    );
}

fn with(channel: u8, start: u8, end: u8, velocities: Vec<u8>) -> Config {
    Config {
        midi: MidiConfig { device_name: String::new(), channel, program_change_delay_ms: 50 },
        audio: AudioConfig { device_name: String::new(), sample_rate: 48000, bit_depth: 24, channels: 2 },
        sampling: SamplingConfig {
            note_range: NoteRange { start, end },
            velocities,
            note_duration_ms: 2000,
            release_time_ms: 1000,
            pre_delay_ms: 100,
        },
    }
}

#[test]
fn configurations_are_validated() {
    assert_eq!(with(16, 0, 127, vec![1, 127]).validate(), Ok(15));
    assert_eq!(with(1, 60, 60, vec![]).validate(), Ok(0));
    assert_eq!(
        with(0, 0, 127, vec![64]).validate(),
        Err(BatcherbirdError::InvalidChannel { channel: 0 })
    );
    assert_eq!(
        with(17, 80, 20, vec![0]).validate(),
        Err(BatcherbirdError::InvalidChannel { channel: 17 })
    );
    assert_eq!(
        with(1, 80, 20, vec![0]).validate(),
        Err(BatcherbirdError::InvalidRange { start: 80, end: 20 })
    );
    assert_eq!(
        with(1, 0, 128, vec![64]).validate(),
        Err(BatcherbirdError::InvalidRange { start: 0, end: 128 })
    );
    assert_eq!(
        with(1, 0, 127, vec![64, 128, 0]).validate(),
        Err(BatcherbirdError::InvalidVelocity { velocity: 128 })
    );
    assert_eq!(
        with(1, 80, 20, vec![0]).session_timing(),
        Err(BatcherbirdError::InvalidRange { start: 80, end: 20 })
    );
    assert_eq!(with(16, 0, 127, vec![]).session_timing().map(|t| (t.midi_channel, t.velocity)), Ok((15, 100)));
    assert_eq!(first_invalid_velocity(&vec![1, 127, 0, 200]), Some(2));
    assert_eq!(first_invalid_velocity(&vec![1, 127]), None);
    assert_eq!(NoteRange::new(36, 48), Ok(NoteRange { start: 36, end: 48 }));
    assert_eq!(NoteRange::new(48, 36), Err(BatcherbirdError::InvalidRange { start: 48, end: 36 }));
    assert_eq!(NoteRange::new(0, 200), Err(BatcherbirdError::InvalidRange { start: 0, end: 200 }));
}

#[test]
fn devices_are_listed_with_their_state() {
    let names = vec!["IAC Driver".to_string(), "MiniFuse 2".to_string()];
    let mut m = DeviceManager::new();
    assert!(m.get_device_state().midi_output.is_none());
    let list = m.list_midi_output_devices(&names);
    assert_eq!(list.len(), 2);
    assert_eq!(list[0].id, "midi_out_0");
    assert_eq!(list[1].id, "midi_out_1");
    assert_eq!(list[1].name, "MiniFuse 2");
    assert_eq!(list[1].device_type, DeviceType::MidiOutput);
    assert!(!list[0].is_connected && !list[1].is_connected);
    assert_eq!(m.connect_midi_output(&names, 1), Ok(()));
    let list = m.list_midi_output_devices(&names);
    assert!(!list[0].is_connected);
    assert!(list[1].is_connected);
    let state = m.get_device_state();
    let used = state.midi_output.as_ref().unwrap();
    assert_eq!((used.id.as_str(), used.name.as_str(), used.is_connected), ("midi_out_1", "MiniFuse 2", true));
    assert!(state.audio_input.is_none());
    assert_eq!(
        m.connect_midi_output(&names, 2),
        Err(BatcherbirdError::PortOutOfRange { index: 2, count: 2 })
    );
    assert_eq!(m.get_device_state().midi_output.as_ref().unwrap().name, "MiniFuse 2");
    assert_eq!(m.connect_audio_input(&names, 0), Ok(()));
    assert_eq!(m.connect_audio_output(&names, 1), Ok(()));
    assert_eq!(m.list_audio_input_devices(&names)[0].id, "audio_in_0");
    assert!(m.list_audio_input_devices(&names)[0].is_connected);
    assert_eq!(m.list_audio_output_devices(&names)[1].id, "audio_out_1");
    assert!(m.list_audio_output_devices(&names)[1].is_connected);
    assert_eq!(
        m.connect_audio_input(&vec![], 0),
        Err(BatcherbirdError::PortOutOfRange { index: 0, count: 0 })
    );
    assert_eq!(
        m.connect_audio_output(&names, 9),
        Err(BatcherbirdError::PortOutOfRange { index: 9, count: 2 })
    );
    m.disconnect_all();
    let state = m.get_device_state();
    assert!(state.midi_output.is_none() && state.audio_input.is_none() && state.audio_output.is_none());
    let many: Vec<String> = (0..12).map(|i| format!("d{}", i)).collect();
    assert_eq!(m.list_audio_input_devices(&many)[11].id, "audio_in_11");
}

#[test]
fn the_hinted_input_device_is_preferred() {
    let m = AudioManager::new("MiniFuse".to_string());
    let names = vec![
        "Built-in Microphone".to_string(),
        "Arturia MiniFuse 2".to_string(),
        "MiniFuse 4".to_string(),
    ];
    assert_eq!(m.get_default_input_device(&names), Some(1));
    assert_eq!(m.get_default_input_device(&names[..1].to_vec()), None);
    assert_eq!(m.get_default_input_device(&vec![]), None);
    assert_eq!(AudioManager::new(String::new()).get_default_input_device(&names), Some(0));
    assert_eq!(AudioManager::record_test_audio(3, 48000, 2), 288_000);
    assert_eq!(
        AudioManager::record_test_audio(u64::MAX, u32::MAX, u16::MAX),
        u64::MAX as u128 * u32::MAX as u128 * u16::MAX as u128
    );
}

#[test]
fn sessions() {
    let s = Session::with(7, "Juno".to_string(), 1_700_000_000_000);
    assert_eq!((s.id, s.name.as_str(), s.created_at, s.updated_at), (7, "Juno", 1_700_000_000_000, 1_700_000_000_000));
    let a = Session::new("a".to_string());
    let b = Session::new("b".to_string());
    assert_eq!(a.name, "a");
    assert_eq!(a.created_at, a.updated_at);
    assert!(a.created_at > 1_600_000_000_000);
    assert_ne!(a.id, b.id);
    // version 4, variant 1
    assert_eq!((a.id >> 76) & 0xF, 4);
    assert_eq!((a.id >> 62) & 0x3, 2);
    let mut m = SessionManager::new();
    assert!(m.current_session().is_none());
    let id = {
        let s = m.create_session("first".to_string());
        assert_eq!(s.name, "first");
        s.id
    };
    assert_eq!(m.current_session().unwrap().id, id);
    let second = m.create_session("second".to_string()).id;
    assert_eq!(m.current_session().unwrap().name, "second");
    assert_eq!(m.current_session().unwrap().id, second);
}

#[test]
fn failures_in_words() {
    let cases: Vec<(BatcherbirdError, &str)> = vec![
        (BatcherbirdError::PortOutOfRange { index: 3, count: 2 }, "Device index 3 out of range (2 found)"),
        (BatcherbirdError::Device("no host".to_string()), "Device error: no host"),
        (BatcherbirdError::UnsupportedFormat("I8".to_string()), "Unsupported sample format: I8"),
        (BatcherbirdError::MidiWrite("closed".to_string()), "MIDI write error: closed"),
        (BatcherbirdError::CaptureUnderrun { reports: 12 }, "Capture underrun, reported 12 times"),
        (BatcherbirdError::InvalidChannel { channel: 17 }, "Invalid MIDI channel: 17. Must be 1-16."),
        (
            BatcherbirdError::InvalidRange { start: 50, end: 40 },
            "Invalid note range: 50-40. Notes must be 0-127 and start <= end.",
        ),
        (BatcherbirdError::InvalidNote { note: 200 }, "Invalid note number: 200. Must be 0-127."),
        (BatcherbirdError::InvalidVelocity { velocity: 0 }, "Invalid velocity: 0. Must be 1-127."),
        (BatcherbirdError::WindowTooSmall, "Window size too small"),
        (BatcherbirdError::TraceMismatch { expected: 199, found: 3 }, "Expected 199 measurements, found 3"),
        (BatcherbirdError::EmptyAudio, "Cannot export empty audio data"),
        (BatcherbirdError::NotASampleEncoding, "Instrument formats are not sample encodings"),
        (BatcherbirdError::UnsupportedLayout, "Audio layout cannot be written as WAVE"),
        (BatcherbirdError::SampleTooWide { index: 5 }, "Sample 5 does not fit the bit depth"),
        (BatcherbirdError::Encode("x".to_string()), "Encode error: x"),
        (BatcherbirdError::Io("disk full".to_string()), "Export error: disk full"),
        (BatcherbirdError::ConfigParse("line 3".to_string()), "Configuration parse error: line 3"),
    ];
    for (error, words) in cases {
        assert_eq!(error.message(), words);
    }
}
