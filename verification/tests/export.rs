use batcherbird::detection::DetectionConfig;
use batcherbird::error::BatcherbirdError;
use batcherbird::export::{
    encode_wav, naming_pattern_for, wav_outcome, words_as_data, AudioFormat, ExportConfig,
    ExportStep, Fades, Prepared, SampleExporter,
};
use batcherbird::wav::{holds_wave_file, WavLayout};
use batcherbird::instrument::{layer_bounds, preset_name, velocity_layers};
use batcherbird::sampler::Sample;

fn sample(note: u8, velocity: u8, frames: usize, channels: u16) -> Sample {
    Sample {
        note,
        velocity,
        audio_data: vec![0.25_f32.to_bits(); frames * channels as usize],
        sample_rate: 48000,
        channels,
        recorded_at: 0,
        midi_timing: 0,
        audio_timing: 0,
    }
}

fn exporter(format: AudioFormat, pattern: &str) -> SampleExporter {
    SampleExporter::new(ExportConfig {
        output_directory: "./samples".to_string(),
        naming_pattern: pattern.to_string(),
        sample_format: format,
        normalize: false,
        fade_in_ms: 0,
        fade_out_ms: 10,
        apply_detection: true,
        detection_config: DetectionConfig::default(),
        creator_name: None,
        instrument_description: None,
    })
}

#[test]
fn default_export_configuration() {
    let c = ExportConfig::default();
    assert_eq!(c.output_directory, "./samples");
    assert_eq!(c.naming_pattern, "{note_name}_{note}_{velocity}.wav");
    assert_eq!(c.sample_format, AudioFormat::Wav24Bit);
    assert!(!c.normalize);
    assert_eq!((c.fade_in_ms, c.fade_out_ms), (0, 10));
    assert!(c.apply_detection);
    assert_eq!(c.detection_config, DetectionConfig::default());
    assert_eq!(c.creator_name, None);
    assert_eq!(c.instrument_description, None);
}

#[test]
fn file_name_of_a_single_c4() {
    let e = SampleExporter::new(ExportConfig::default());
    let s = sample(60, 100, 10, 1);
    assert_eq!(e.filename_at(&s, "20240101_120000"), "C4_60_vel100.wav");
    assert_eq!(e.generate_filename(&s), "C4_60_vel100.wav");
    assert_eq!(SampleExporter::note_to_name(60), "C4");
}

#[test]
fn file_name_placeholders() {
    let s = sample(61, 7, 10, 1);
    let name = |pattern: &str| exporter(AudioFormat::Wav24Bit, pattern).filename_at(&s, "20240101_120000");
    assert_eq!(name("{note_name}_{note}_{velocity}"), "C#4_61_vel007.wav");
    assert_eq!(name("{timestamp}-{sample_rate}-{note}"), "20240101_120000-48000-61.wav");
    assert_eq!(name("Juno_{note_name}_{note}_{velocity}.wav"), "Juno_C#4_61_vel007.wav");
    // path separators do not survive
    assert_eq!(name("a/b\\c_{note}"), "a_b_c_61.wav");
    // other braces are kept as they are
    assert_eq!(name("{pitch}_{note}"), "{pitch}_61.wav");
    assert_eq!(name(""), ".wav");
    assert_eq!(name("{note}{note}"), "6161.wav");
    assert_eq!(name("x.wav.wav"), "x.wav.wav");
    // the name made now carries a timestamp of fifteen characters
    let now = exporter(AudioFormat::Wav24Bit, "{timestamp}").generate_filename(&s);
    assert_eq!(now.len(), 15 + 4);
    assert!(now.ends_with(".wav"));
    assert_eq!(now.as_bytes()[8], b'_');
}

#[test]
fn preset_names() {
    assert_eq!(preset_name("{note_name}_{note}_{velocity}.wav"), "Batcherbird_Instrument");
    assert_eq!(preset_name("Juno_{note_name}_{note}_{velocity}.wav"), "Juno");
    assert_eq!(preset_name("My_Synth_{note}.wav"), "MySynth");
    assert_eq!(preset_name(""), "Batcherbird_Instrument");
    assert_eq!(preset_name("{timestamp}"), "{timestamp}");
}

#[test]
fn layers_divide_the_velocities() {
    assert_eq!(layer_bounds(0, 1), (1, 127));
    assert_eq!(layer_bounds(0, 2), (1, 63));
    assert_eq!(layer_bounds(1, 2), (64, 127));
    assert_eq!(layer_bounds(0, 3), (1, 42));
    assert_eq!(layer_bounds(1, 3), (43, 84));
    assert_eq!(layer_bounds(2, 3), (85, 127));
    for n in 1..=127usize {
        let mut next = 1u8;
        for k in 0..n {
            let (low, high) = layer_bounds(k, n);
            assert_eq!(low, next);
            assert!(low <= high);
            next = high.wrapping_add(1);
        }
        assert_eq!(next, 128);
    }
    let samples = vec![sample(60, 127, 1, 1), sample(62, 64, 1, 1), sample(64, 127, 1, 1), sample(65, 1, 1, 1)];
    assert_eq!(velocity_layers(&samples, 4), vec![1, 64, 127]);
    assert_eq!(velocity_layers(&samples, 1), vec![127]);
    assert_eq!(velocity_layers(&samples, 0), Vec::<u8>::new());
}

fn six() -> (Vec<Sample>, Vec<String>) {
    let mut samples = Vec::new();
    let mut files = Vec::new();
    let e = SampleExporter::new(ExportConfig::default());
    for velocity in [64u8, 127] {
        for note in [60u8, 62, 64] {
            let s = sample(note, velocity, 1, 1);
            files.push(e.filename_at(&s, ""));
            samples.push(s);
        }
    }
    (samples, files)
}

#[test]
fn dspreset_emission() {
    let (samples, files) = six();
    let mut config = ExportConfig::default();
    config.sample_format = AudioFormat::DecentSampler;
    config.creator_name = Some("Ada".to_string());
    config.instrument_description = Some("Six notes".to_string());
    let e = SampleExporter::new(config);
    let file = e.generate_dspreset_file(&samples, &files);
    assert_eq!(file.name, "Batcherbird_Instrument.dspreset");
    let expected = "<?xml version=\"1.0\" encoding=\"UTF-8\"?>\n\
<!-- Batcherbird_Instrument - Generated by Batcherbird -->\n\
<!-- Creator: Ada -->\n\
<!-- Description: Six notes -->\n\
<DecentSampler>\n\
\x20 <ui width=\"812\" height=\"375\">\n\
\x20   <tab name=\"main\">\n\
\x20     <labeled-knob x=\"50\" y=\"50\" label=\"Volume\" type=\"float\" minValue=\"0\" maxValue=\"1\" value=\"0.7\">\n\
\x20       <binding type=\"amp\" level=\"instrument\" parameter=\"VOLUME\" />\n\
\x20     </labeled-knob>\n\
\x20   </tab>\n\
\x20 </ui>\n\
\x20 <groups>\n\
\x20   <group>\n\
\x20     <sample path=\"C4_60_vel064.wav\" loNote=\"60\" hiNote=\"60\" rootNote=\"60\" loVel=\"1\" hiVel=\"63\" />\n\
\x20     <sample path=\"D4_62_vel064.wav\" loNote=\"62\" hiNote=\"62\" rootNote=\"62\" loVel=\"1\" hiVel=\"63\" />\n\
\x20     <sample path=\"E4_64_vel064.wav\" loNote=\"64\" hiNote=\"64\" rootNote=\"64\" loVel=\"1\" hiVel=\"63\" />\n\
\x20   </group>\n\
\x20   <group>\n\
\x20     <sample path=\"C4_60_vel127.wav\" loNote=\"60\" hiNote=\"60\" rootNote=\"60\" loVel=\"64\" hiVel=\"127\" />\n\
\x20     <sample path=\"D4_62_vel127.wav\" loNote=\"62\" hiNote=\"62\" rootNote=\"62\" loVel=\"64\" hiVel=\"127\" />\n\
\x20     <sample path=\"E4_64_vel127.wav\" loNote=\"64\" hiNote=\"64\" rootNote=\"64\" loVel=\"64\" hiVel=\"127\" />\n\
\x20   </group>\n\
\x20 </groups>\n\
</DecentSampler>\n";
    assert_eq!(file.text, expected);
    assert_eq!(file.text.matches("<sample ").count(), 6);
    assert_eq!(file.text.matches("<group>").count(), 2);
    assert_eq!(e.generate_dspreset_xml("Batcherbird_Instrument", &samples, &files), expected);
}

#[test]
fn dspreset_of_a_single_layer_covers_all_velocities() {
    let samples = vec![sample(60, 100, 1, 1)];
    let files = vec!["C4_60_vel100.wav".to_string()];
    let e = exporter(AudioFormat::DecentSampler, "Juno_{note_name}_{note}_{velocity}.wav");
    let text = e.generate_dspreset_xml("Juno", &samples, &files);
    assert!(text.starts_with("<?xml version=\"1.0\" encoding=\"UTF-8\"?>\n<!-- Juno - Generated by Batcherbird -->\n<DecentSampler>\n"));
    assert!(text.contains("      <sample path=\"C4_60_vel100.wav\" loNote=\"60\" hiNote=\"60\" rootNote=\"60\" loVel=\"1\" hiVel=\"127\" />\n"));
    assert_eq!(text.matches("<group>").count(), 1);
    // segments without a file are left out
    let more = vec![sample(60, 100, 1, 1), sample(61, 100, 1, 1)];
    assert_eq!(e.generate_dspreset_xml("Juno", &more, &files), text);
}

#[test]
fn sfz_emission() {
    let (samples, files) = six();
    let mut config = ExportConfig::default();
    config.sample_format = AudioFormat::SFZ;
    config.creator_name = Some("Ada".to_string());
    let e = SampleExporter::new(config);
    let file = e.generate_sfz_file(&samples, &files);
    assert_eq!(file.name, "Batcherbird_Instrument.sfz");
    let expected = "// Batcherbird_Instrument - Generated by Batcherbird\n\
// Creator: Ada\n\
\n\
<control>\n\
default_path=samples/\n\
\n\
<global>\n\
ampeg_release=0.5\n\
\n\
<group>\n\
lovel=1\n\
hivel=63\n\
\n\
<region>\n\
sample=C4_60_vel064.wav\n\
key=60\n\
\n\
<region>\n\
sample=D4_62_vel064.wav\n\
key=62\n\
\n\
<region>\n\
sample=E4_64_vel064.wav\n\
key=64\n\
\n\
<group>\n\
lovel=64\n\
hivel=127\n\
\n\
<region>\n\
sample=C4_60_vel127.wav\n\
key=60\n\
\n\
<region>\n\
sample=D4_62_vel127.wav\n\
key=62\n\
\n\
<region>\n\
sample=E4_64_vel127.wav\n\
key=64\n\
\n";
    assert_eq!(file.text, expected);
    assert_eq!(e.generate_sfz_content("Batcherbird_Instrument", &samples, &files), expected);
    // one velocity: a single group over all velocities
    let one = e.generate_sfz_content("X", &vec![sample(60, 100, 1, 1)], &vec!["a.wav".to_string()]);
    assert_eq!(
        one,
        "// X - Generated by Batcherbird\n// Creator: Ada\n\n<control>\ndefault_path=samples/\n\n<global>\nampeg_release=0.5\n\n<group>\nlovel=1\nhivel=127\n\n<region>\nsample=a.wav\nkey=60\n\n"
    );
}

#[test]
fn encodings_saturate() {
    assert_eq!(AudioFormat::Wav16Bit.saturate(32767), 32767);
    assert_eq!(AudioFormat::Wav16Bit.saturate(32768), 32767);
    assert_eq!(AudioFormat::Wav16Bit.saturate(-32768), -32768);
    assert_eq!(AudioFormat::Wav16Bit.saturate(-40000), -32768);
    assert_eq!(AudioFormat::Wav16Bit.saturate(i64::MAX), 32767);
    assert_eq!(AudioFormat::Wav24Bit.saturate(8_388_607), 8_388_607);
    assert_eq!(AudioFormat::Wav24Bit.saturate(8_388_608), 8_388_607);
    assert_eq!(AudioFormat::Wav24Bit.saturate(i64::MIN), -8_388_608);
    assert_eq!(AudioFormat::DecentSampler.saturate(-9_000_000), -8_388_608);
    assert_eq!(AudioFormat::Wav24Bit.saturate(-5), -5);
    assert_eq!(AudioFormat::DecentSampler.encoding_of_samples(), AudioFormat::Wav24Bit);
    assert_eq!(AudioFormat::SFZ.encoding_of_samples(), AudioFormat::Wav24Bit);
    assert_eq!(AudioFormat::Wav16Bit.encoding_of_samples(), AudioFormat::Wav16Bit);
    assert_eq!(AudioFormat::Wav32BitFloat.encoding_of_samples(), AudioFormat::Wav32BitFloat);
}

fn le32(bytes: &[u8], at: usize) -> u32 {
    u32::from_le_bytes([bytes[at], bytes[at + 1], bytes[at + 2], bytes[at + 3]])
}

fn le16(bytes: &[u8], at: usize) -> u16 {
    u16::from_le_bytes([bytes[at], bytes[at + 1]])
}

#[test]
fn wave_file_of_16_bit_samples() {
    let e = exporter(AudioFormat::Wav16Bit, "{note}");
    let s = sample(60, 100, 3, 2);
    let data: Vec<i32> = vec![1, -1, 32767, -32768, 0, 258];
    let bytes = e.write_wav_file(&data, &s).unwrap();
    assert_eq!(&bytes[0..4], b"RIFF");
    assert_eq!(le32(&bytes, 4) as usize, bytes.len() - 8);
    assert_eq!(&bytes[8..16], b"WAVEfmt ");
    assert_eq!(le32(&bytes, 16), 16);
    assert_eq!(le16(&bytes, 20), 1); // PCM
    assert_eq!(le16(&bytes, 22), 2); // channels
    assert_eq!(le32(&bytes, 24), 48000);
    assert_eq!(le32(&bytes, 28), 48000 * 4);
    assert_eq!(le16(&bytes, 32), 4);
    assert_eq!(le16(&bytes, 34), 16);
    assert_eq!(&bytes[36..40], b"data");
    assert_eq!(le32(&bytes, 40), 12);
    assert_eq!(&bytes[44..], &[1, 0, 0xFF, 0xFF, 0xFF, 0x7F, 0, 0x80, 0, 0, 2, 1]);
    // what was written reads back
    let mut reader = hound::WavReader::new(std::io::Cursor::new(bytes)).unwrap();
    let back: Vec<i32> = reader.samples::<i32>().map(|x| x.unwrap()).collect();
    assert_eq!(back, data);
}

#[test]
fn wave_file_of_24_bit_samples() {
    let e = exporter(AudioFormat::Wav24Bit, "{note}");
    let s = sample(60, 100, 2, 1);
    let data: Vec<i32> = vec![8_388_607, -8_388_608];
    let bytes = e.write_wav_file(&data, &s).unwrap();
    let mut reader = hound::WavReader::new(std::io::Cursor::new(bytes.clone())).unwrap();
    let spec = reader.spec();
    assert_eq!(spec.channels, 1);
    assert_eq!(spec.sample_rate, 48000);
    assert_eq!(spec.bits_per_sample, 24);
    assert_eq!(spec.sample_format, hound::SampleFormat::Int);
    let back: Vec<i32> = reader.samples::<i32>().map(|x| x.unwrap()).collect();
    assert_eq!(back, data);
    assert_eq!(&bytes[bytes.len() - 6..], &[0xFF, 0xFF, 0x7F, 0, 0, 0x80]);
    // an instrument format stores its samples at 24 bits
    let i = exporter(AudioFormat::DecentSampler, "{note}");
    let file = i.export_prepared(&s, &data).unwrap();
    assert_eq!(file.bytes, bytes);
    assert_eq!(file.name, "60.wav");
    assert_eq!(i.write_wav_file(&data, &s), Err(BatcherbirdError::NotASampleEncoding));
    let z = exporter(AudioFormat::SFZ, "{note}");
    assert_eq!(z.export_prepared(&s, &data).unwrap().bytes, bytes);
    assert_eq!(z.write_wav_file(&data, &s), Err(BatcherbirdError::NotASampleEncoding));
}

#[test]
fn wave_file_of_words() {
    let e = exporter(AudioFormat::Wav32BitFloat, "{note}");
    let s = sample(60, 100, 3, 1);
    let values = [0.5_f32, -1.0, 0.0];
    let data: Vec<i32> = values.iter().map(|x| x.to_bits() as i32).collect();
    let bytes = e.write_wav_file(&data, &s).unwrap();
    let mut reader = hound::WavReader::new(std::io::Cursor::new(bytes)).unwrap();
    let spec = reader.spec();
    assert_eq!(spec.bits_per_sample, 32);
    assert_eq!(spec.sample_format, hound::SampleFormat::Float);
    let back: Vec<f32> = reader.samples::<f32>().map(|x| x.unwrap()).collect();
    assert_eq!(back, values);
}

#[test]
fn what_cannot_be_encoded() {
    let e = exporter(AudioFormat::Wav16Bit, "{note}");
    let s = sample(60, 100, 2, 2);
    assert_eq!(e.write_wav_file(&vec![], &s), Err(BatcherbirdError::EmptyAudio));
    assert_eq!(e.write_wav_file(&vec![1, 2, 3], &s), Err(BatcherbirdError::UnsupportedLayout));
    assert_eq!(
        e.write_wav_file(&vec![1, 2, 40000, -40000], &s),
        Err(BatcherbirdError::SampleTooWide { index: 2 })
    );
    let mut silent = sample(60, 100, 2, 1);
    silent.sample_rate = 0;
    assert_eq!(e.write_wav_file(&vec![1, 2], &silent), Err(BatcherbirdError::UnsupportedLayout));
    let mut none = sample(60, 100, 2, 1);
    none.channels = 0;
    assert_eq!(e.write_wav_file(&vec![1, 2], &none), Err(BatcherbirdError::UnsupportedLayout));
    let mut fast = sample(60, 100, 2, 1);
    fast.sample_rate = u32::MAX;
    fast.channels = 2;
    assert_eq!(e.write_wav_file(&vec![1, 2], &fast), Err(BatcherbirdError::UnsupportedLayout));
    let wide = exporter(AudioFormat::Wav24Bit, "{note}");
    assert_eq!(
        wide.write_wav_file(&vec![8_388_608, 0], &s),
        Err(BatcherbirdError::SampleTooWide { index: 0 })
    );
    assert_eq!(
        encode_wav(AudioFormat::SFZ, &vec![], &s),
        Err(BatcherbirdError::EmptyAudio)
    );
}

#[test]
fn a_batch_goes_on_after_a_failure() {
    let samples = vec![
        sample(60, 64, 2, 1),
        sample(62, 64, 2, 1),
        sample(60, 127, 2, 1),
        sample(62, 127, 2, 1),
    ];
    let data: Vec<Vec<i32>> = vec![vec![1, 2], vec![], vec![3, 9_000_000], vec![5, 6]];
    let e = exporter(AudioFormat::DecentSampler, "{note_name}_{note}_{velocity}");
    let report = e.export_samples(&samples, &data).unwrap();
    // notes x velocities, less the failures
    assert_eq!(report.exported.len(), 2 * 2 - report.failures.len());
    assert_eq!(report.failures.len(), 2);
    assert_eq!(report.failures[0].index, 1);
    assert_eq!(report.failures[0].error, BatcherbirdError::EmptyAudio);
    assert_eq!(report.failures[1].index, 2);
    assert_eq!(report.failures[1].error, BatcherbirdError::SampleTooWide { index: 1 });
    assert_eq!(report.exported[0].index, 0);
    assert_eq!(report.exported[0].name, "C4_60_vel064.wav");
    assert_eq!(report.exported[1].index, 3);
    assert_eq!(report.exported[1].name, "D4_62_vel127.wav");
    assert_eq!(report.exported[0].bytes, e.export_prepared(&samples[0], &data[0]).unwrap().bytes);
    // the instrument names the exported files only
    let instrument = report.instrument.unwrap();
    assert_eq!(instrument.name, "Batcherbird_Instrument.dspreset");
    assert_eq!(instrument.text.matches("<sample ").count(), 2);
    assert!(instrument.text.contains("path=\"C4_60_vel064.wav\" loNote=\"60\" hiNote=\"60\" rootNote=\"60\" loVel=\"1\" hiVel=\"63\""));
    assert!(instrument.text.contains("path=\"D4_62_vel127.wav\" loNote=\"62\" hiNote=\"62\" rootNote=\"62\" loVel=\"64\" hiVel=\"127\""));
    // sample files only
    let plain = exporter(AudioFormat::Wav24Bit, "{note}");
    let report = plain.export_samples(&samples, &data).unwrap();
    assert!(report.instrument.is_none());
    assert_eq!(report.exported.len() + report.failures.len(), 4);
    let sfz = exporter(AudioFormat::SFZ, "{note}");
    let report = sfz.export_samples(&samples, &data).unwrap();
    assert_eq!(report.instrument.unwrap().name, "Batcherbird_Instrument.sfz");
    // data for another number of segments
    assert_eq!(
        plain.export_samples(&samples, &vec![]).err(),
        Some(BatcherbirdError::TraceMismatch { expected: 4, found: 0 })
    );
}

#[test]
fn fades_are_held_to_the_buffer() {
    let mut config = ExportConfig::default();
    config.fade_in_ms = 5;
    config.fade_out_ms = 10;
    let e = SampleExporter::new(config);
    assert_eq!(e.apply_fades(48000, 48000), Fades { fade_in: 240, fade_out: 480 });
    assert_eq!(e.apply_fades(300, 48000), Fades { fade_in: 240, fade_out: 300 });
    assert_eq!(e.apply_fades(0, 48000), Fades { fade_in: 0, fade_out: 0 });
    let none = SampleExporter::new(ExportConfig { fade_out_ms: 0, ..ExportConfig::default() });
    assert_eq!(none.apply_fades(48000, 48000), Fades { fade_in: 0, fade_out: 0 });
}

#[test]
fn normalizing_needs_a_peak_between_zero_and_one() {
    let words = |v: &[f32]| v.iter().map(|x| x.to_bits()).collect::<Vec<u32>>();
    let on = SampleExporter::new(ExportConfig { normalize: true, ..ExportConfig::default() });
    let off = SampleExporter::new(ExportConfig::default());
    assert_eq!(on.normalize_audio(&words(&[0.1, -0.5, 0.25])), Some(0.5_f32.to_bits()));
    assert_eq!(on.normalize_audio(&words(&[0.0, -0.0])), None);
    assert_eq!(on.normalize_audio(&words(&[0.5, 1.0])), None);
    assert_eq!(on.normalize_audio(&words(&[0.5, -1.5])), None);
    assert_eq!(on.normalize_audio(&words(&[])), None);
    assert_eq!(off.normalize_audio(&words(&[0.1, -0.5, 0.25])), None);
}

#[test]
fn export_information() {
    let e = SampleExporter::new(ExportConfig::default());
    assert_eq!(
        e.get_export_info(),
        "Export Configuration:\n  Directory: ./samples\n  Format: Wav24Bit\n  Normalize: false\n  Fade out: 10ms"
    );
    assert_eq!(AudioFormat::Wav32BitFloat.to_name(), "Wav32BitFloat");
    assert_eq!(AudioFormat::Wav16Bit.to_name(), "Wav16Bit");
    assert_eq!(AudioFormat::DecentSampler.to_name(), "DecentSampler");
    assert_eq!(AudioFormat::SFZ.to_name(), "SFZ");
}

#[test]
fn audio_is_trimmed_for_export_where_detection_is_on() {
    let audio: Vec<f32> = (0..1000)
        .map(|i| if i >= 200 && i < 600 { if i % 2 == 0 { 0.5 } else { -0.5 } } else { 0.0 })
        .collect();
    let mut s = sample(60, 100, 0, 1);
    s.sample_rate = 1000;
    s.audio_data = audio.iter().map(|x| x.to_bits()).collect();
    let on = SampleExporter::new(ExportConfig::default());
    let detector = batcherbird::detection::SampleDetector::new(on.config.detection_config);
    let count = detector.window_count(1000, 1000).unwrap();
    let trace: Vec<u32> = (0..count)
        .map(|i| {
            let (from, to) = detector.window_span(i, 1000, 1000);
            let sum: f32 = audio[from..to].iter().map(|x| x * x).sum();
            (sum / (to - from) as f32).sqrt().to_bits()
        })
        .collect();
    let threshold = 0.01_f32.to_bits();
    assert_eq!(on.trimmed_audio(&s, trace.clone(), threshold), s.audio_data[370..1000].to_vec());
    let off = SampleExporter::new(ExportConfig { apply_detection: false, ..ExportConfig::default() });
    assert_eq!(off.trimmed_audio(&s, trace, threshold), s.audio_data);
    // a detection that fails or errs leaves the audio whole
    assert_eq!(on.trimmed_audio(&s, vec![], threshold), s.audio_data);
    let short = sample(60, 100, 10, 1);
    assert_eq!(on.trimmed_audio(&short, vec![0.5_f32.to_bits()], threshold), short.audio_data);
}

#[test]
fn naming_patterns_and_formats_by_name() {
    assert_eq!(naming_pattern_for(""), "{note_name}_{note}_{velocity}.wav");
    assert_eq!(naming_pattern_for("Juno"), "Juno_{note_name}_{note}_{velocity}.wav");
    assert_eq!(AudioFormat::from_name("decentsampler"), AudioFormat::DecentSampler);
    assert_eq!(AudioFormat::from_name("sfz"), AudioFormat::SFZ);
    assert_eq!(AudioFormat::from_name("kontakt"), AudioFormat::Wav24Bit);
    assert_eq!(AudioFormat::from_name("all"), AudioFormat::Wav24Bit);
    assert_eq!(AudioFormat::from_name("wav"), AudioFormat::Wav32BitFloat);
    assert_eq!(AudioFormat::from_name(""), AudioFormat::Wav32BitFloat);
    assert_eq!(AudioFormat::from_name("SFZ"), AudioFormat::Wav32BitFloat);
    assert_eq!(AudioFormat::from_name("sfzz"), AudioFormat::Wav32BitFloat);
}

#[test]
fn what_the_encoder_refuses_is_an_encode_error() {
    assert_eq!(wav_outcome(Ok(vec![1, 2, 3])), Ok(vec![1, 2, 3]));
    assert_eq!(
        wav_outcome(Err(hound::Error::TooWide)),
        Err(BatcherbirdError::Encode("The sample has more bits than the destination type.".to_string()))
    );
    assert!(matches!(wav_outcome(Err(hound::Error::Unsupported)), Err(BatcherbirdError::Encode(_))));
}

#[test]
fn a_single_c4_from_capture_to_file() {
    // 2.7 s at 48 kHz mono: 150 ms of silence, 2 s of tone, silence again
    let rate = 48000u32;
    let audio: Vec<f32> = (0..129_600usize)
        .map(|i| {
            if i >= 7200 && i < 103_200 {
                0.5 * (2.0 * std::f32::consts::PI * 261.63 * i as f32 / rate as f32).sin()
            } else {
                0.0
            }
        })
        .collect();
    let mut s = sample(60, 100, 0, 1);
    s.audio_data = audio.iter().map(|x| x.to_bits()).collect();
    let e = SampleExporter::new(ExportConfig::default());
    let detector = batcherbird::detection::SampleDetector::new(e.config.detection_config);
    let count = detector.window_count(audio.len(), rate).unwrap();
    let trace: Vec<u32> = (0..count)
        .map(|i| {
            let (from, to) = detector.window_span(i, audio.len(), rate);
            let sum: f32 = audio[from..to].iter().map(|x| x * x).sum();
            (sum / (to - from) as f32).sqrt().to_bits()
        })
        .collect();
    let threshold = 0.01_f32.to_bits();
    let found = detector
        .detect_boundaries(&s.audio_data, rate, trace.clone(), threshold)
        .unwrap();
    assert!(found.success);
    assert!(found.start_sample <= found.detected_start);
    assert!(found.detected_start <= found.detected_end);
    assert!(found.detected_end <= found.end_sample);
    assert!(found.end_sample <= audio.len());
    let kept = e.trimmed_audio(&s, trace, threshold);
    assert_eq!(kept, s.audio_data[found.start_sample..found.end_sample].to_vec());
    let data: Vec<i32> = kept
        .iter()
        .map(|w| AudioFormat::Wav24Bit.saturate((f32::from_bits(*w) * 8_388_607.0).round() as i64))
        .collect();
    let file = e.export_prepared(&s, &data).unwrap();
    assert_eq!(file.name, "C4_60_vel100.wav");
    let mut reader = hound::WavReader::new(std::io::Cursor::new(file.bytes)).unwrap();
    assert_eq!(reader.spec().sample_rate, 48000);
    assert_eq!(reader.spec().channels, 1);
    assert_eq!(reader.len() as usize, kept.len());
    let back: Vec<i32> = reader.samples::<i32>().map(|x| x.unwrap()).collect();
    assert_eq!(back, data);
}

fn rounded(values: &[f32], format: AudioFormat, scale: f32) -> Vec<i32> {
    values.iter().map(|x| format.saturate((x * scale).round() as i64)).collect()
}

#[test]
fn sixteen_bit_samples_are_rounded_and_saturated() {
    let e = exporter(AudioFormat::Wav16Bit, "{note}");
    let s = sample(60, 100, 5, 1);
    let data = rounded(&[0.25, -0.25, 1.0, -1.0, 2.0], AudioFormat::Wav16Bit, 32767.0);
    assert_eq!(data, vec![8192, -8192, 32767, -32767, 32767]);
    let bytes = e.write_wav_file(&data, &s).unwrap();
    assert_eq!(bytes.len(), 44 + 10);
    let stored: Vec<i16> =
        bytes[44..].chunks(2).map(|b| i16::from_le_bytes([b[0], b[1]])).collect();
    assert_eq!(stored, vec![8192, -8192, 32767, -32767, 32767]);
    assert_eq!(le16(&bytes, 20), 1);
    let layout = WavLayout { channels: 1, sample_rate: 48000, bits_per_sample: 16, float: false };
    assert!(holds_wave_file(&bytes, &layout, &data));
}

#[test]
fn twenty_four_bit_samples_are_rounded_and_saturated() {
    let e = exporter(AudioFormat::Wav24Bit, "{note}");
    let s = sample(60, 100, 2, 1);
    let data = rounded(&[0.25, 2.0], AudioFormat::Wav24Bit, 8_388_607.0);
    assert_eq!(data, vec![2_097_152, 8_388_607]);
    let bytes = e.write_wav_file(&data, &s).unwrap();
    assert_eq!(bytes.len(), 68 + 6);
    assert_eq!(&bytes[68..], &[0x00, 0x00, 0x20, 0xFF, 0xFF, 0x7F]);
    // above 16 bits the header is the extensible one
    assert_eq!(le16(&bytes, 20), 0xFFFE);
    assert_eq!(le16(&bytes, 44), 1);
    let layout = WavLayout { channels: 1, sample_rate: 48000, bits_per_sample: 24, float: false };
    assert!(holds_wave_file(&bytes, &layout, &data));
}

#[test]
fn sample_files_have_one_format_and_one_data_chunk() {
    for (format, bits, kind) in [
        (AudioFormat::Wav16Bit, 16u16, 1u16),
        (AudioFormat::Wav24Bit, 24, 1),
        (AudioFormat::Wav32BitFloat, 32, 3),
    ] {
        for channels in [1u16, 2, 3] {
            let e = exporter(format, "{note}");
            let mut s = sample(60, 100, 4, channels);
            s.sample_rate = 44100;
            let data: Vec<i32> = (0..4 * channels as i32).map(|i| i * 1000 - 3000).collect();
            let bytes = e.write_wav_file(&data, &s).unwrap();
            let extensible = bits > 16 || channels > 2;
            let start = if extensible { 68 } else { 44 };
            assert_eq!(&bytes[0..4], b"RIFF");
            assert_eq!(le32(&bytes, 4) as usize, bytes.len() - 8);
            assert_eq!(&bytes[8..16], b"WAVEfmt ");
            assert_eq!(le32(&bytes, 16) as usize, start - 28);
            assert_eq!(le16(&bytes, 22), channels);
            assert_eq!(le32(&bytes, 24), 44100);
            assert_eq!(le16(&bytes, 34), bits);
            if extensible {
                assert_eq!(le16(&bytes, 20), 0xFFFE);
                assert_eq!(le16(&bytes, 38), bits);
                assert_eq!(le16(&bytes, 44), kind);
            } else {
                assert_eq!(le16(&bytes, 20), 1);
            }
            assert_eq!(&bytes[start - 8..start - 4], b"data");
            assert_eq!(le32(&bytes, start - 4) as usize, data.len() * (bits as usize / 8));
            assert_eq!(bytes.len(), start + data.len() * (bits as usize / 8));
            assert_eq!(bytes.windows(4).filter(|w| *w == b"fmt ").count(), 1);
            let layout = WavLayout {
                channels,
                sample_rate: 44100,
                bits_per_sample: bits,
                float: kind == 3,
            };
            assert!(holds_wave_file(&bytes, &layout, &data));
            // the facts tell one file from another
            assert!(!holds_wave_file(&bytes, &layout, &data[channels as usize..].to_vec()));
            let mut other = data.clone();
            other[1] += 1;
            assert!(!holds_wave_file(&bytes, &layout, &other));
            let mut broken = bytes.clone();
            broken[22] ^= 1;
            assert!(!holds_wave_file(&broken, &layout, &data));
            assert!(!holds_wave_file(&bytes, &WavLayout { sample_rate: 48000, ..layout }, &data));
            let mut reader = hound::WavReader::new(std::io::Cursor::new(bytes)).unwrap();
            assert_eq!(reader.spec().bits_per_sample, bits);
            assert_eq!(reader.spec().channels, channels);
            assert_eq!(reader.len() as usize, data.len());
            if kind == 1 {
                let back: Vec<i32> = reader.samples::<i32>().map(|x| x.unwrap()).collect();
                assert_eq!(back, data);
            }
        }
    }
}

/// What hound writes for a layout and samples, without the library.
fn by_hound(layout: &WavLayout, samples: &[i32]) -> Result<Vec<u8>, hound::Error> {
    let spec = hound::WavSpec {
        channels: layout.channels,
        sample_rate: layout.sample_rate,
        bits_per_sample: layout.bits_per_sample,
        sample_format: if layout.float { hound::SampleFormat::Float } else { hound::SampleFormat::Int },
    };
    let mut cursor = std::io::Cursor::new(Vec::new());
    {
        let mut writer = hound::WavWriter::new(&mut cursor, spec)?;
        for s in samples {
            writer.write_sample(*s)?;
        }
        writer.finalize()?;
    }
    Ok(cursor.into_inner())
}

#[test]
fn what_is_said_of_a_wave_file_holds_of_what_the_writer_writes() {
    let extremes =
        [0, 1, -1, 127, -128, 255, 256, 32767, -32768, 65535, -65536, 8_388_607, -8_388_608];
    for bits in [16u16, 24, 32] {
        for float in [false, true] {
            if float && bits != 32 {
                continue;
            }
            for channels in [1u16, 2, 3, 8, 19, 40] {
                for rate in [1u32, 8000, 44100, 96000] {
                    let layout = WavLayout { channels, sample_rate: rate, bits_per_sample: bits, float };
                    let mut samples: Vec<i32> = extremes
                        .iter()
                        .copied()
                        .filter(|v| bits == 32 || (*v >= -(1 << (bits - 1)) && *v < (1 << (bits - 1))))
                        .collect();
                    if bits == 32 {
                        samples.extend([i32::MAX, i32::MIN, 0x3F80_0000, -0x4080_0000]);
                    }
                    while samples.len() % channels as usize != 0 {
                        samples.push(7);
                    }
                    let bytes = by_hound(&layout, &samples).unwrap();
                    assert!(holds_wave_file(&bytes, &layout, &samples));
                    // no samples at all
                    let empty = by_hound(&layout, &[]).unwrap();
                    assert!(holds_wave_file(&empty, &layout, &vec![]));
                }
            }
        }
    }
    // layouts that are not written
    let bytes = by_hound(
        &WavLayout { channels: 1, sample_rate: 8000, bits_per_sample: 8, float: false },
        &[1],
    )
    .unwrap();
    assert!(!holds_wave_file(
        &bytes,
        &WavLayout { channels: 1, sample_rate: 8000, bits_per_sample: 8, float: false },
        &vec![1]
    ));
    let layout = WavLayout { channels: 2, sample_rate: 8000, bits_per_sample: 16, float: false };
    assert!(layout.can_hold(10));
    assert!(!WavLayout { channels: 0, ..layout }.can_hold(10));
    assert!(!WavLayout { sample_rate: 0, ..layout }.can_hold(10));
    assert!(!WavLayout { float: true, ..layout }.can_hold(10));
    assert!(!WavLayout { sample_rate: u32::MAX, ..layout }.can_hold(10));
    assert!(layout.can_hold((u32::MAX as usize - 64) / 2));
    assert!(!layout.can_hold((u32::MAX as usize - 64) / 2 + 1));
}

#[test]
fn what_the_writer_refuses_is_refused_before_it() {
    // values that do not fit and frames that are not whole are all that it refuses
    let layout = WavLayout { channels: 2, sample_rate: 8000, bits_per_sample: 16, float: false };
    assert!(matches!(by_hound(&layout, &[40000, 0]), Err(hound::Error::TooWide)));
    assert!(matches!(by_hound(&layout, &[1, 2, 3]), Err(hound::Error::UnfinishedSample)));
    assert!(by_hound(&layout, &[32767, -32768]).is_ok());
    let mut s = sample(60, 100, 1, 2);
    s.sample_rate = 8000;
    assert_eq!(
        encode_wav(AudioFormat::Wav16Bit, &vec![40000, 0], &s),
        Err(BatcherbirdError::SampleTooWide { index: 0 })
    );
    assert_eq!(
        encode_wav(AudioFormat::Wav16Bit, &vec![1, 2, 3], &s),
        Err(BatcherbirdError::UnsupportedLayout)
    );
    assert_eq!(
        encode_wav(AudioFormat::Wav16Bit, &vec![32767, -32768], &s),
        Ok(by_hound(&layout, &[32767, -32768]).unwrap())
    );
}

fn words(values: &[f32]) -> Vec<u32> {
    values.iter().map(|x| x.to_bits()).collect()
}

fn quiet(format: AudioFormat) -> ExportConfig {
    ExportConfig {
        sample_format: format,
        fade_in_ms: 0,
        fade_out_ms: 0,
        normalize: false,
        apply_detection: true,
        naming_pattern: "{note_name}_{note}_{velocity}".to_string(),
        ..ExportConfig::default()
    }
}

#[test]
fn words_go_into_the_file_as_they_are() {
    assert_eq!(
        words_as_data(&[0, 1, 0x3F80_0000, 0x7FFF_FFFF, 0x8000_0000, 0xBF80_0000, u32::MAX]),
        vec![0, 1, 0x3F80_0000, i32::MAX, i32::MIN, -0x4080_0000, -1]
    );
    let values = [0.5_f32, -0.25, 0.0, -0.0, 1.0, -1.0, f32::MIN_POSITIVE, 3.5e-39];
    for (w, d) in words(&values).iter().zip(words_as_data(&words(&values))) {
        assert_eq!(*w, d as u32);
    }
}

#[test]
fn a_failed_detection_exports_the_raw_buffer() {
    // 50 ms of signal: too short for the detection, which fails
    let e = SampleExporter::new(quiet(AudioFormat::Wav32BitFloat));
    let mut s = sample(60, 100, 0, 1);
    s.sample_rate = 1000;
    let audio: Vec<f32> = (0..50).map(|i| if i % 2 == 0 { 0.5 } else { -0.5 }).collect();
    s.audio_data = words(&audio);
    let before = s.audio_data.clone();
    let detector = batcherbird::detection::SampleDetector::new(e.config.detection_config);
    let trace: Vec<u32> = (0..detector.window_count(50, 1000).unwrap())
        .map(|_| 0.5_f32.to_bits())
        .collect();
    let threshold = 0.01_f32.to_bits();
    let found = detector.detect_boundaries(&s.audio_data, 1000, trace.clone(), threshold).unwrap();
    assert!(!found.success);
    let file = match e.export_sample(&s, trace.clone(), threshold).unwrap() {
        ExportStep::Done(file) => file,
        ExportStep::Work(_) => panic!("nothing is to be worked on"),
    };
    assert_eq!(file.name, "C4_60_vel100.wav");
    assert_eq!(s.audio_data, before);
    let mut reader = hound::WavReader::new(std::io::Cursor::new(file.bytes.clone())).unwrap();
    assert_eq!(reader.spec().sample_format, hound::SampleFormat::Float);
    let back: Vec<u32> = reader.samples::<f32>().map(|x| x.unwrap().to_bits()).collect();
    assert_eq!(back, before);
    assert_eq!(file.bytes.len(), 68 + 4 * 50);
    for (k, w) in before.iter().enumerate() {
        assert_eq!(le32(&file.bytes, 68 + 4 * k), *w);
    }
    // a detection that errs: the window holds no sample
    let mut config = quiet(AudioFormat::Wav32BitFloat);
    config.detection_config.window_size_ms = 0;
    let erring = SampleExporter::new(config);
    match erring.export_sample(&s, vec![], threshold).unwrap() {
        ExportStep::Done(file) => {
            let mut reader = hound::WavReader::new(std::io::Cursor::new(file.bytes)).unwrap();
            let back: Vec<u32> = reader.samples::<f32>().map(|x| x.unwrap().to_bits()).collect();
            assert_eq!(back, before);
        }
        ExportStep::Work(_) => panic!("nothing is to be worked on"),
    }
    // a detection that succeeds: the file holds what it keeps
    let long: Vec<f32> = (0..1000)
        .map(|i| if i >= 200 && i < 600 { if i % 2 == 0 { 0.5 } else { -0.5 } } else { 0.0 })
        .collect();
    s.audio_data = words(&long);
    let trace: Vec<u32> = (0..detector.window_count(1000, 1000).unwrap())
        .map(|i| {
            let (from, to) = detector.window_span(i, 1000, 1000);
            let sum: f32 = long[from..to].iter().map(|x| x * x).sum();
            (sum / (to - from) as f32).sqrt().to_bits()
        })
        .collect();
    match e.export_sample(&s, trace.clone(), threshold).unwrap() {
        ExportStep::Done(file) => {
            let mut reader = hound::WavReader::new(std::io::Cursor::new(file.bytes)).unwrap();
            let back: Vec<u32> = reader.samples::<f32>().map(|x| x.unwrap().to_bits()).collect();
            assert_eq!(back, s.audio_data[370..1000].to_vec());
        }
        ExportStep::Work(_) => panic!("nothing is to be worked on"),
    }
    // an empty buffer is refused
    s.audio_data = vec![];
    assert_eq!(e.export_sample(&s, vec![], threshold).err(), Some(BatcherbirdError::EmptyAudio));
}

#[test]
fn values_that_change_are_handed_out_as_work() {
    let mut s = sample(60, 100, 0, 1);
    s.audio_data = words(&[0.5; 4800]);
    let threshold = 0.01_f32.to_bits();
    let off = |config: ExportConfig| SampleExporter::new(ExportConfig { apply_detection: false, ..config });
    // a fade
    let fading = off(ExportConfig { fade_out_ms: 10, ..quiet(AudioFormat::Wav32BitFloat) });
    match fading.export_sample(&s, vec![], threshold).unwrap() {
        ExportStep::Work(work) => {
            assert_eq!(work.audio, s.audio_data);
            assert_eq!(work.fades, Fades { fade_in: 0, fade_out: 480 });
            assert!(!work.normalize);
            assert_eq!(work.encoding, AudioFormat::Wav32BitFloat);
        }
        ExportStep::Done(_) => panic!("the fade is still to be applied"),
    }
    // rounding
    let rounding = off(quiet(AudioFormat::DecentSampler));
    match rounding.prepare(&s, vec![], threshold) {
        Prepared::Work(work) => {
            assert_eq!(work.fades, Fades { fade_in: 0, fade_out: 0 });
            assert_eq!(work.encoding, AudioFormat::Wav24Bit);
        }
        Prepared::Ready(_) => panic!("the values are still to be rounded"),
    }
    // a gain
    let gaining = off(ExportConfig { normalize: true, ..quiet(AudioFormat::Wav32BitFloat) });
    match gaining.prepare(&s, vec![], threshold) {
        Prepared::Work(work) => assert!(work.normalize),
        Prepared::Ready(_) => panic!("the gain is still to be applied"),
    }
    // normalizing a buffer at full scale changes nothing
    s.audio_data = words(&[1.0, -0.5]);
    match gaining.prepare(&s, vec![], threshold) {
        Prepared::Ready(data) => assert_eq!(data, words_as_data(&s.audio_data)),
        Prepared::Work(_) => panic!("nothing is to be worked on"),
    }
    // at a rate at which the fade holds no sample, nothing is faded
    s.sample_rate = 50;
    match fading.prepare(&s, vec![], threshold) {
        Prepared::Ready(data) => assert_eq!(data, words_as_data(&s.audio_data)),
        Prepared::Work(_) => panic!("nothing is to be worked on"),
    }
}

#[test]
fn fades_rise_from_silence_and_fall_to_silence() {
    let fades = Fades { fade_in: 4, fade_out: 5 };
    let rise: Vec<(usize, usize)> = (0..6).map(|i| fades.rising_weight(i)).collect();
    assert_eq!(rise, vec![(0, 4), (1, 4), (2, 4), (3, 4), (1, 1), (1, 1)]);
    let fall: Vec<(usize, usize)> = (3..11).map(|i| fades.falling_weight(10, i)).collect();
    assert_eq!(fall, vec![(1, 1), (1, 1), (4, 5), (3, 5), (2, 5), (1, 5), (0, 5), (1, 1)]);
    let none = Fades { fade_in: 0, fade_out: 0 };
    assert_eq!(none.rising_weight(0), (1, 1));
    assert_eq!(none.falling_weight(10, 9), (1, 1));
    assert_eq!(none.falling_weight(0, 0), (1, 1));
    let whole = Fades { fade_in: 3, fade_out: 3 };
    assert_eq!(whole.falling_weight(3, 0), (2, 3));
    assert_eq!(whole.falling_weight(3, 2), (0, 3));
}

#[test]
fn every_segment_without_a_fault_gives_a_file() {
    let samples: Vec<Sample> = (0..6).map(|i| sample(60 + i, 100, 3, 2)).collect();
    let data: Vec<Vec<i32>> = (0..6).map(|i| vec![i, -i, 100, -100, 32767, -32768]).collect();
    for format in [AudioFormat::Wav16Bit, AudioFormat::Wav24Bit, AudioFormat::SFZ] {
        let e = exporter(format, "{note}_{velocity}");
        let report = e.export_samples(&samples, &data).unwrap();
        assert!(report.failures.is_empty());
        assert_eq!(report.exported.len(), 6);
        for (i, file) in report.exported.iter().enumerate() {
            assert_eq!(file.index, i);
            assert_eq!(file.name, format!("{}_vel100.wav", 60 + i));
            assert_eq!(file.bytes, e.export_prepared(&samples[i], &data[i]).unwrap().bytes);
        }
        assert_eq!(report.instrument.is_some(), format == AudioFormat::SFZ);
    }
}
