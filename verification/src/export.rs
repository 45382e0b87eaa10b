//! Turning captured segments into sample files and instrument files.

use vstd::prelude::*;
use vstd::string::*;
use std::fmt::Write;
use crate::detection::{
    copy_range, least, ms_to_samples, samples_in, trimmed, DetectionConfig, DetectionResult,
    SampleDetector, DEFAULT_THRESHOLD_DB,
};
use crate::error::BatcherbirdError;
use crate::ieee::ONE;
use crate::instrument::{
    dspreset_document, dspreset_text, preset_name, preset_name_of, sfz_document, sfz_text,
};
use crate::notes::{note_name, sample_note_name};
use crate::plan::{lemma_one_segment_per_note, segments_taken, Sweep};
use crate::sampler::{peak_of, AudioLevelDetector, Sample, SamplingConfig};
use crate::text::{
    decimal, decimal_string, ends_with, has_suffix, push_decimal, push_zero_padded, replace_all,
    replaced, same_text, zero_padded,
};
use crate::wav::{
    hound_encode, hound_error_text, hound_wav_bytes, is_wave_file, le32, WavLayout,
};

verus! {

/// What an export produces: sample files at one of three encodings, or
/// 24-bit sample files together with an instrument file.
#[derive(Debug, Clone, Copy, PartialEq, Eq, Structural)]
pub enum AudioFormat {
    Wav16Bit,
    Wav24Bit,
    Wav32BitFloat,
    /// Sample files and a `.dspreset` document.
    DecentSampler,
    /// Sample files and an `.sfz` text.
    SFZ,
}

impl AudioFormat {
    /// Whether the format names an instrument file beside the samples.
    pub open spec fn is_instrument(self) -> bool {
        self == AudioFormat::DecentSampler || self == AudioFormat::SFZ
    }

    /// The encoding of the sample files themselves: instrument formats
    /// store their samples at 24 bits.
    pub open spec fn sample_encoding(self) -> AudioFormat {
        if self.is_instrument() {
            AudioFormat::Wav24Bit
        } else {
            self
        }
    }

    /// Bits per sample of a sample encoding.
    pub open spec fn bits(self) -> u16 {
        match self {
            AudioFormat::Wav16Bit => 16,
            AudioFormat::Wav32BitFloat => 32,
            _ => 24,
        }
    }

    /// Largest value of an integer encoding: what full scale is multiplied
    /// by before rounding.
    pub open spec fn full_scale(self) -> int {
        match self {
            AudioFormat::Wav16Bit => 32767,
            _ => 8_388_607,
        }
    }

    /// A scaled and rounded value, held to the range of the encoding.
    pub open spec fn saturated(self, scaled: i64) -> int {
        if scaled > self.full_scale() {
            self.full_scale()
        } else if scaled < -self.full_scale() - 1 {
            -self.full_scale() - 1
        } else {
            scaled as int
        }
    }

    pub fn encoding_of_samples(self) -> (f: AudioFormat)
        ensures
            f == self.sample_encoding(),
            !f.is_instrument(),
    {
        match self {
            AudioFormat::DecentSampler => AudioFormat::Wav24Bit,
            AudioFormat::SFZ => AudioFormat::Wav24Bit,
            other => other,
        }
    }

    /// Holds a scaled and rounded value to the range of an integer
    /// encoding: 16 bits for `Wav16Bit`, 24 bits for the others.
    pub fn saturate(self, scaled: i64) -> (v: i32)
        ensures
            v == self.saturated(scaled),
            -self.full_scale() - 1 <= v <= self.full_scale(),
    {
        let top: i64 = match self {
            AudioFormat::Wav16Bit => 32767,
            _ => 8_388_607,
        };
        if scaled > top {
            top as i32
        } else if scaled < -top - 1 {
            (-top - 1) as i32
        } else {
            scaled as i32
        }
    }
}

/// How segments are exported. Durations are in milliseconds.
#[derive(Debug, Clone)]
pub struct ExportConfig {
    pub output_directory: String,
    /// File name template; see `filename_of`.
    pub naming_pattern: String,
    pub sample_format: AudioFormat,
    pub normalize: bool,
    pub fade_in_ms: u32,
    pub fade_out_ms: u32,
    pub apply_detection: bool,
    pub detection_config: DetectionConfig,
    pub creator_name: Option<String>,
    pub instrument_description: Option<String>,
}

pub struct SampleExporter {
    pub config: ExportConfig,
}

/// The layout of the sample file for a segment: channel count and sample
/// rate of the capture; 16, 24 or 32 bits by the encoding, words at 32.
pub open spec fn layout_for(format: AudioFormat, channels: u16, sample_rate: u32) -> WavLayout {
    WavLayout {
        channels,
        sample_rate,
        bits_per_sample: format.bits(),
        float: format == AudioFormat::Wav32BitFloat,
    }
}

/// Index of the first value that does not fit the layout, or the length.
pub open spec fn first_misfit(layout: WavLayout, data: Seq<i32>) -> int
    decreases data.len(),
{
    if data.len() == 0 {
        0
    } else if !layout.fits(data[0]) {
        0
    } else {
        1 + first_misfit(layout, data.skip(1))
    }
}

/// `first_misfit` is the least index of a value that does not fit, and
/// the length of the data when every value fits.
pub proof fn lemma_first_misfit(layout: WavLayout, data: Seq<i32>)
    ensures
        0 <= first_misfit(layout, data) <= data.len(),
        layout.all_fit(data) <==> first_misfit(layout, data) == data.len(),
        forall|i: int| 0 <= i < first_misfit(layout, data) ==> layout.fits(#[trigger] data[i]),
        first_misfit(layout, data) < data.len() ==> !layout.fits(
            data[first_misfit(layout, data)],
        ),
    decreases data.len(),
{
    if data.len() > 0 && layout.fits(data[0]) {
        let rest = data.skip(1);
        lemma_first_misfit(layout, rest);
        assert forall|i: int| 0 <= i < first_misfit(layout, data) implies layout.fits(
            #[trigger] data[i],
        ) by {
            if i > 0 {
                assert(rest[i - 1] == data[i]);
            }
        }
        if first_misfit(layout, data) < data.len() {
            assert(rest[first_misfit(layout, rest)] == data[first_misfit(layout, data)]);
        }
    }
}

/// What the exporter hands on for an encoder's answer: the bytes, or
/// `Encode` with the encoder's words.
pub fn wav_outcome(encoded: Result<Vec<u8>, hound::Error>) -> (r: Result<
    Vec<u8>,
    BatcherbirdError,
>)
    ensures
        encoded matches Ok(bytes) ==> r == Ok::<Vec<u8>, BatcherbirdError>(bytes),
        encoded is Err ==> r matches Err(BatcherbirdError::Encode(_)),
{
    match encoded {
        Ok(bytes) => Ok(bytes),
        Err(e) => Err(BatcherbirdError::Encode(hound_error_text(&e))),
    }
}

/// What stands in the way of encoding `data` for a segment in a format,
/// checked in this order: no data; an instrument format where a sample
/// encoding is due; a layout that cannot be written, or data that is not
/// whole frames; a value that does not fit the bit depth.
pub open spec fn wav_fault(format: AudioFormat, data: Seq<i32>, sample: &Sample) -> Option<
    BatcherbirdError,
> {
    let layout = layout_for(format, sample.channels, sample.sample_rate);
    if data.len() == 0 {
        Some(BatcherbirdError::EmptyAudio)
    } else if format.is_instrument() {
        Some(BatcherbirdError::NotASampleEncoding)
    } else if !layout.writable() || !layout.holds(data.len() as int) || data.len() % (
    sample.channels as nat) != 0 {
        Some(BatcherbirdError::UnsupportedLayout)
    } else if !layout.all_fit(data) {
        Some(BatcherbirdError::SampleTooWide { index: first_misfit(layout, data) as usize })
    } else {
        None
    }
}

/// The bytes are the sample file of a segment for the data in a sample
/// encoding: the file that `hound` writes for the layout of the segment,
/// which is a WAVE file as `is_wave_file` describes it. Up to 16 bits and
/// two channels its format tag is 1; above, and so for 24-bit samples and
/// for words, the tag is 0xFFFE and the sub-format says 1 for integers and
/// 3 for words.
pub open spec fn is_sample_file(
    bytes: Seq<u8>,
    format: AudioFormat,
    data: Seq<i32>,
    sample: &Sample,
) -> bool {
    &&& bytes == hound_wav_bytes(
        sample.channels,
        sample.sample_rate,
        format.bits(),
        format == AudioFormat::Wav32BitFloat,
        data,
    )
    &&& is_wave_file(bytes, layout_for(format, sample.channels, sample.sample_rate), data)
}

/// Encodes the quantized data of a segment as a WAVE file in memory.
///
/// `data` holds one value per sample, interleaved: for the integer
/// encodings the rounded and saturated values, for `Wav32BitFloat` the
/// words themselves. What `wav_fault` names is refused with that fault;
/// everything else is encoded, and the result is the sample file of the
/// segment for the data.
pub fn encode_wav(format: AudioFormat, data: &Vec<i32>, sample: &Sample) -> (r: Result<
    Vec<u8>,
    BatcherbirdError,
>)
    ensures
        wav_fault(format, data@, sample) matches Some(e) ==> r == Err::<Vec<u8>, BatcherbirdError>(
            e,
        ),
        wav_fault(format, data@, sample) is None ==> (r matches Ok(bytes) && is_sample_file(
            bytes@,
            format,
            data@,
            sample,
        )),
{
    if data.len() == 0 {
        return Err(BatcherbirdError::EmptyAudio);
    }
    let (bits, float): (u16, bool) = match format {
        AudioFormat::Wav16Bit => (16, false),
        AudioFormat::Wav24Bit => (24, false),
        AudioFormat::Wav32BitFloat => (32, true),
        AudioFormat::DecentSampler => {
            return Err(BatcherbirdError::NotASampleEncoding);
        },
        AudioFormat::SFZ => {
            return Err(BatcherbirdError::NotASampleEncoding);
        },
    };
    let layout = WavLayout {
        channels: sample.channels,
        sample_rate: sample.sample_rate,
        bits_per_sample: bits,
        float,
    };
    assert(layout == layout_for(format, sample.channels, sample.sample_rate));
    if !layout.can_hold(data.len()) {
        return Err(BatcherbirdError::UnsupportedLayout);
    }
    if data.len() % (sample.channels as usize) != 0 {
        return Err(BatcherbirdError::UnsupportedLayout);
    }
    proof {
        lemma_first_misfit(layout, data@);
        assert(data@.skip(0) =~= data@);
    }
    let ghost fault = if first_misfit(layout, data@) < data@.len() {
        Some(BatcherbirdError::SampleTooWide { index: first_misfit(layout, data@) as usize })
    } else {
        None
    };
    assert(wav_fault(format, data@, sample) == fault);
    let mut i: usize = 0;
    while i < data.len()
        invariant
            i <= data@.len(),
            layout.bits_per_sample == bits,
            bits == 16 || bits == 24 || bits == 32,
            i + first_misfit(layout, data@.skip(i as int)) == first_misfit(layout, data@),
            wav_fault(format, data@, sample) == fault,
            fault == if first_misfit(layout, data@) < data@.len() {
                Some(
                    BatcherbirdError::SampleTooWide {
                        index: first_misfit(layout, data@) as usize,
                    },
                )
            } else {
                None
            },
            layout.writable(),
            layout.holds(data@.len() as int),
            data@.len() % (sample.channels as nat) == 0,
            layout == layout_for(format, sample.channels, sample.sample_rate),
        decreases data@.len() - i,
    {
        let v: i32 = data[i];
        let fits: bool = if bits == 16 {
            -32768 <= v && v <= 32767
        } else if bits == 24 {
            -8_388_608 <= v && v <= 8_388_607
        } else {
            true
        };
        proof {
            let rest = data@.skip(i as int);
            assert(rest[0] == data@[i as int]);
            assert(rest.skip(1) =~= data@.skip(i + 1));
        }
        if !fits {
            assert(first_misfit(layout, data@) == i);
            return Err(BatcherbirdError::SampleTooWide { index: i });
        }
        i = i + 1;
    }
    assert(first_misfit(layout, data@) == data@.len());
    wav_outcome(hound_encode(&layout, data))
}

impl SampleExporter {
    pub fn new(config: ExportConfig) -> (e: SampleExporter)
        ensures
            e.config == config,
    {
        SampleExporter { config }
    }

    /// Encodes the quantized data of a segment in the configured format;
    /// see `encode_wav`.
    pub fn write_wav_file(&self, data: &Vec<i32>, sample: &Sample) -> (r: Result<
        Vec<u8>,
        BatcherbirdError,
    >)
        ensures
            wav_fault(self.config.sample_format, data@, sample) matches Some(e) ==> r == Err::<
                Vec<u8>,
                BatcherbirdError,
            >(e),
            wav_fault(self.config.sample_format, data@, sample) is None ==> (r matches Ok(bytes)
                && is_sample_file(bytes@, self.config.sample_format, data@, sample)),
    {
        encode_wav(self.config.sample_format, data, sample)
    }
}


/// What `{velocity}` stands for: `vel` and the velocity in three digits.
pub open spec fn velocity_tag(velocity: u8) -> Seq<char> {
    "vel"@ + zero_padded(velocity as nat, 3)
}

/// A name with both kinds of path separator replaced by `_`.
pub open spec fn without_separators(name: Seq<char>) -> Seq<char> {
    replaced(replaced(name, "/"@, "_"@), "\\"@, "_"@)
}

/// The file name of a segment.
///
/// In the pattern `{note}` stands for the note number, `{note_name}` for
/// the name of the note, `{velocity}` for `vel` and the velocity in three
/// digits, `{timestamp}` for the time of the export and `{sample_rate}` for
/// the sample rate; they are filled in one after the other, in this order.
/// Path separators in the result become `_`, and `.wav` is added where the
/// name does not end with it.
pub open spec fn filename_of(
    pattern: Seq<char>,
    note: u8,
    velocity: u8,
    timestamp: Seq<char>,
    sample_rate: u32,
) -> Seq<char> {
    let a = replaced(pattern, "{note}"@, decimal(note as nat));
    let b = replaced(a, "{note_name}"@, note_name(note));
    let c = replaced(b, "{velocity}"@, velocity_tag(velocity));
    let d = replaced(c, "{timestamp}"@, timestamp);
    let e = replaced(d, "{sample_rate}"@, decimal(sample_rate as nat));
    let f = without_separators(e);
    if has_suffix(f, ".wav"@) {
        f
    } else {
        f + ".wav"@
    }
}

/// `chrono::Utc::now().format(layout)`, written out with `write!`; `None`
/// where writing it fails, as it does for a layout with an item that
/// `chrono` does not know. Nothing is claimed of the text: it is the time
/// of the call.
#[verifier::external_body]
pub(crate) fn utc_formatted(layout: &str) -> (stamp: Option<String>) {
    let mut stamp = String::new();
    match write!(stamp, "{}", chrono::Utc::now().format(layout)) {
        Ok(()) => Some(stamp),
        Err(_) => None,
    }
}

impl SampleExporter {
    /// The name of a note.
    pub fn note_to_name(note: u8) -> (name: String)
        ensures
            name@ == note_name(note),
    {
        sample_note_name(note)
    }

    /// The file name of a segment exported at the time `timestamp`.
    pub fn filename_at(&self, sample: &Sample, timestamp: &str) -> (name: String)
        ensures
            name@ == filename_of(
                self.config.naming_pattern@,
                sample.note,
                sample.velocity,
                timestamp@,
                sample.sample_rate,
            ),
    {
        let note = decimal_string(sample.note as u64);
        let note_name = sample_note_name(sample.note);
        let mut velocity = String::from_str("vel");
        push_zero_padded(&mut velocity, sample.velocity as u64, 3);
        let sample_rate = decimal_string(sample.sample_rate as u64);
        let a = replace_all(self.config.naming_pattern.as_str(), "{note}", note.as_str());
        let b = replace_all(a.as_str(), "{note_name}", note_name.as_str());
        let c = replace_all(b.as_str(), "{velocity}", velocity.as_str());
        let d = replace_all(c.as_str(), "{timestamp}", timestamp);
        let e = replace_all(d.as_str(), "{sample_rate}", sample_rate.as_str());
        let f = replace_all(replace_all(e.as_str(), "/", "_").as_str(), "\\", "_");
        if ends_with(f.as_str(), ".wav") {
            f
        } else {
            f.concat(".wav")
        }
    }

    /// The file name of a segment exported now.
    pub fn generate_filename(&self, sample: &Sample) -> (name: String)
        ensures
            exists|timestamp: Seq<char>|
                name@ == #[trigger] filename_of(
                    self.config.naming_pattern@,
                    sample.note,
                    sample.velocity,
                    timestamp,
                    sample.sample_rate,
                ),
    {
        // year, month, day, an underscore, hour, minute, second
        let stamp = match utc_formatted("%Y%m%d_%H%M%S") {
            Some(stamp) => stamp,
            None => String::new(),
        };
        self.filename_at(sample, stamp.as_str())
    }
}


/// A file ready to be written: its name within the output directory and
/// its bytes. `index` is the place of its segment among those handed in.
#[derive(Debug)]
pub struct ExportedFile {
    pub index: usize,
    pub name: String,
    pub bytes: Vec<u8>,
}

/// An instrument file ready to be written.
#[derive(Debug)]
pub struct InstrumentFile {
    pub name: String,
    pub text: String,
}

/// Lengths of the two fades of a segment, in samples.
#[derive(Debug, Clone, Copy, PartialEq, Eq, Structural)]
pub struct Fades {
    /// The first `fade_in` samples rise linearly from silence.
    pub fade_in: usize,
    /// The last `fade_out` samples fall linearly to silence.
    pub fade_out: usize,
}

impl Fades {
    /// The weight of sample `i` in the fade-in, as numerator and
    /// denominator: `i / fade_in` within the fade, so that the first sample
    /// is silent, and 1 after it.
    pub open spec fn rise(self, i: int) -> (int, int) {
        if i < self.fade_in {
            (i, self.fade_in as int)
        } else {
            (1, 1)
        }
    }

    /// The weight of sample `i` of `len` in the fade-out, as numerator and
    /// denominator: 1 before the fade, and within it the fade-in mirrored,
    /// `(len - 1 - i) / fade_out`, so that the last sample is silent.
    pub open spec fn fall(self, len: int, i: int) -> (int, int) {
        if len - self.fade_out <= i < len {
            (len - 1 - i, self.fade_out as int)
        } else {
            (1, 1)
        }
    }

    /// No sample is weighted: both fades are empty.
    pub open spec fn none(self) -> bool {
        self.fade_in == 0 && self.fade_out == 0
    }

    /// The weight of sample `i` in the fade-in.
    pub fn rising_weight(&self, i: usize) -> (w: (usize, usize))
        ensures
            w.0 == self.rise(i as int).0,
            w.1 == self.rise(i as int).1,
            0 <= w.0 <= w.1,
            w.1 >= 1,
    {
        if i < self.fade_in {
            (i, self.fade_in)
        } else {
            (1, 1)
        }
    }

    /// The weight of sample `i` of `len` in the fade-out.
    pub fn falling_weight(&self, len: usize, i: usize) -> (w: (usize, usize))
        ensures
            w.0 == self.fall(len as int, i as int).0,
            w.1 == self.fall(len as int, i as int).1,
            0 <= w.0 <= w.1,
            w.1 >= 1,
    {
        if i < len && len - i <= self.fade_out {
            (len - 1 - i, self.fade_out)
        } else {
            (1, 1)
        }
    }
}

impl SampleExporter {
    /// The text of the `.dspreset` document for the segments and their
    /// files, under the given name.
    pub fn generate_dspreset_xml(
        &self,
        preset_name: &str,
        samples: &Vec<Sample>,
        wav_files: &Vec<String>,
    ) -> (text: String)
        ensures
            text@ == dspreset_text(
                preset_name@,
                self.config.creator_name,
                self.config.instrument_description,
                samples@,
                wav_files@,
            ),
    {
        dspreset_document(
            preset_name,
            &self.config.creator_name,
            &self.config.instrument_description,
            samples,
            wav_files,
        )
    }

    /// The text of the `.sfz` instrument for the segments and their files,
    /// under the given name.
    pub fn generate_sfz_content(
        &self,
        preset_name: &str,
        samples: &Vec<Sample>,
        wav_files: &Vec<String>,
    ) -> (text: String)
        ensures
            text@ == sfz_text(
                preset_name@,
                self.config.creator_name,
                self.config.instrument_description,
                samples@,
                wav_files@,
            ),
    {
        sfz_document(
            preset_name,
            &self.config.creator_name,
            &self.config.instrument_description,
            samples,
            wav_files,
        )
    }

    /// The `.dspreset` file for the segments: named after the naming
    /// pattern, with the document as its text.
    pub fn generate_dspreset_file(&self, samples: &Vec<Sample>, wav_files: &Vec<String>) -> (file:
        InstrumentFile)
        ensures
            file.name@ == preset_name_of(self.config.naming_pattern@) + ".dspreset"@,
            file.text@ == dspreset_text(
                preset_name_of(self.config.naming_pattern@),
                self.config.creator_name,
                self.config.instrument_description,
                samples@,
                wav_files@,
            ),
    {
        let name = preset_name(self.config.naming_pattern.as_str());
        let text = self.generate_dspreset_xml(name.as_str(), samples, wav_files);
        InstrumentFile { name: name.concat(".dspreset"), text }
    }

    /// The `.sfz` file for the segments: named after the naming pattern,
    /// with the instrument as its text.
    pub fn generate_sfz_file(&self, samples: &Vec<Sample>, wav_files: &Vec<String>) -> (file:
        InstrumentFile)
        ensures
            file.name@ == preset_name_of(self.config.naming_pattern@) + ".sfz"@,
            file.text@ == sfz_text(
                preset_name_of(self.config.naming_pattern@),
                self.config.creator_name,
                self.config.instrument_description,
                samples@,
                wav_files@,
            ),
    {
        let name = preset_name(self.config.naming_pattern.as_str());
        let text = self.generate_sfz_content(name.as_str(), samples, wav_files);
        InstrumentFile { name: name.concat(".sfz"), text }
    }

    /// The fades of a buffer of `len` samples: the configured durations in
    /// samples, each held to the length of the buffer.
    pub fn apply_fades(&self, len: usize, sample_rate: u32) -> (fades: Fades)
        ensures
            fades.fade_in == least(samples_in(self.config.fade_in_ms, sample_rate), len as int),
            fades.fade_out == least(samples_in(self.config.fade_out_ms, sample_rate), len as int),
    {
        let fade_in: u64 = ms_to_samples(self.config.fade_in_ms, sample_rate);
        let fade_out: u64 = ms_to_samples(self.config.fade_out_ms, sample_rate);
        Fades {
            fade_in: if fade_in <= len as u64 {
                fade_in as usize
            } else {
                len
            },
            fade_out: if fade_out <= len as u64 {
                fade_out as usize
            } else {
                len
            },
        }
    }

    /// The peak to normalize a buffer by, if it is to be normalized: the
    /// largest magnitude among its samples, where normalizing is switched
    /// on and that peak lies above zero and below one. The samples are
    /// then scaled by 0.95 over the peak.
    pub fn normalize_audio(&self, audio_data: &[u32]) -> (peak: Option<u32>)
        ensures
            peak == if self.config.normalize && 0 < peak_of(0, audio_data@) < ONE {
                Some(peak_of(0, audio_data@))
            } else {
                None
            },
    {
        if !self.config.normalize {
            return None;
        }
        let mut detector = AudioLevelDetector::new(0);
        let _ = detector.process_samples(audio_data);
        if 0 < detector.peak_level && detector.peak_level < ONE {
            Some(detector.peak_level)
        } else {
            None
        }
    }

    /// The words that describe the configuration.
    pub fn get_export_info(&self) -> (info: String)
        ensures
            info@ == "Export Configuration:\n  Directory: "@ + self.config.output_directory@
                + "\n  Format: "@ + self.config.sample_format.name() + "\n  Normalize: "@ + (
            if self.config.normalize {
                "true"@
            } else {
                "false"@
            }) + "\n  Fade out: "@ + decimal(self.config.fade_out_ms as nat) + "ms"@,
    {
        let mut info = String::from_str("Export Configuration:\n  Directory: ");
        info.append(self.config.output_directory.as_str());
        info.append("\n  Format: ");
        info.append(self.config.sample_format.to_name());
        info.append("\n  Normalize: ");
        if self.config.normalize {
            info.append("true");
        } else {
            info.append("false");
        }
        info.append("\n  Fade out: ");
        push_decimal(&mut info, self.config.fade_out_ms as u64);
        info.append("ms");
        info
    }
}

impl AudioFormat {
    /// The name of the format.
    pub open spec fn name(self) -> Seq<char> {
        match self {
            AudioFormat::Wav16Bit => "Wav16Bit"@,
            AudioFormat::Wav24Bit => "Wav24Bit"@,
            AudioFormat::Wav32BitFloat => "Wav32BitFloat"@,
            AudioFormat::DecentSampler => "DecentSampler"@,
            AudioFormat::SFZ => "SFZ"@,
        }
    }

    pub fn to_name(self) -> (s: &'static str)
        ensures
            s@ == self.name(),
    {
        match self {
            AudioFormat::Wav16Bit => "Wav16Bit",
            AudioFormat::Wav24Bit => "Wav24Bit",
            AudioFormat::Wav32BitFloat => "Wav32BitFloat",
            AudioFormat::DecentSampler => "DecentSampler",
            AudioFormat::SFZ => "SFZ",
        }
    }
}

impl Default for ExportConfig {
    /// Samples at 24 bits into `./samples`, named by note name, note and
    /// velocity, trimmed by detection, with a fade-out of 10 ms.
    fn default() -> (c: ExportConfig)
        ensures
            c.output_directory@ == "./samples"@,
            c.naming_pattern@ == "{note_name}_{note}_{velocity}.wav"@,
            c.sample_format == AudioFormat::Wav24Bit,
            !c.normalize,
            c.fade_in_ms == 0,
            c.fade_out_ms == 10,
            c.apply_detection,
            c.detection_config == (DetectionConfig {
                threshold_db: DEFAULT_THRESHOLD_DB,
                window_size_ms: 10,
                min_sample_length_ms: 100,
                pre_trigger_ms: 20,
                post_trigger_ms: 200,
                confirmation_windows: 3,
            }),
            c.creator_name is None,
            c.instrument_description is None,
    {
        ExportConfig {
            output_directory: String::from_str("./samples"),
            naming_pattern: String::from_str("{note_name}_{note}_{velocity}.wav"),
            sample_format: AudioFormat::Wav24Bit,
            normalize: false,
            fade_in_ms: 0,
            fade_out_ms: 10,
            apply_detection: true,
            detection_config: DetectionConfig::default(),
            creator_name: None,
            instrument_description: None,
        }
    }
}


/// A segment that could not be exported, by its place among those handed
/// in, and why.
#[derive(Debug)]
pub struct ExportFailure {
    pub index: usize,
    pub error: BatcherbirdError,
}

/// What a batch export produced: a file for each segment that could be
/// encoded, in the order of the segments; a failure for each that could
/// not; and the instrument file, where the format asks for one.
#[derive(Debug)]
pub struct ExportReport {
    pub exported: Vec<ExportedFile>,
    pub failures: Vec<ExportFailure>,
    pub instrument: Option<InstrumentFile>,
}

impl SampleExporter {
    /// The file is the encoding of the segment at its index, under a name
    /// made from the naming pattern.
    pub open spec fn is_export_of(
        &self,
        samples: Seq<Sample>,
        data: Seq<Vec<i32>>,
        file: ExportedFile,
    ) -> bool {
        let format = self.config.sample_format.sample_encoding();
        &&& file.index < samples.len()
        &&& file.index < data.len()
        &&& wav_fault(format, data[file.index as int]@, &samples[file.index as int]) is None
        &&& is_sample_file(
            file.bytes@,
            format,
            data[file.index as int]@,
            &samples[file.index as int],
        )
        &&& self.is_name_of(&samples[file.index as int], file.name@)
    }

    /// The failure names a segment that has the fault it reports.
    pub open spec fn is_failure_of(
        &self,
        samples: Seq<Sample>,
        data: Seq<Vec<i32>>,
        failure: ExportFailure,
    ) -> bool {
        let format = self.config.sample_format.sample_encoding();
        &&& failure.index < samples.len()
        &&& failure.index < data.len()
        &&& wav_fault(format, data[failure.index as int]@, &samples[failure.index as int])
            == Some(failure.error)
    }

    /// The name is the file name of the segment at some time.
    pub open spec fn is_name_of(&self, sample: &Sample, name: Seq<char>) -> bool {
        exists|timestamp: Seq<char>|
            name == #[trigger] filename_of(
                self.config.naming_pattern@,
                sample.note,
                sample.velocity,
                timestamp,
                sample.sample_rate,
            )
    }

    /// Some exported file belongs to the segment at `index`.
    pub open spec fn has_file(exported: Seq<ExportedFile>, index: int) -> bool {
        exists|k: int| 0 <= k < exported.len() && #[trigger] exported[k].index == index
    }

    /// The instrument file is made of `kept` and `names`, which hold the
    /// note and velocity and the file name of each exported segment.
    pub open spec fn is_instrument_of(
        &self,
        samples: Seq<Sample>,
        exported: Seq<ExportedFile>,
        file: InstrumentFile,
        kept: Seq<Sample>,
        names: Seq<String>,
    ) -> bool {
        let name = preset_name_of(self.config.naming_pattern@);
        &&& kept.len() == exported.len()
        &&& names.len() == exported.len()
        &&& forall|k: int|
            0 <= k < kept.len() ==> (#[trigger] kept[k]).note == samples[exported[k].index as int].note
                && kept[k].velocity == samples[exported[k].index as int].velocity
        &&& forall|k: int| 0 <= k < names.len() ==> #[trigger] names[k]@ == exported[k].name@
        &&& if self.config.sample_format == AudioFormat::DecentSampler {
            file.name@ == name + ".dspreset"@ && file.text@ == dspreset_text(
                name,
                self.config.creator_name,
                self.config.instrument_description,
                kept,
                names,
            )
        } else {
            file.name@ == name + ".sfz"@ && file.text@ == sfz_text(
                name,
                self.config.creator_name,
                self.config.instrument_description,
                kept,
                names,
            )
        }
    }

    /// Encodes the quantized data of one segment and names its file.
    /// Instrument formats store their samples at 24 bits. What `wav_fault`
    /// names is refused with that fault; everything else gives the file.
    pub fn export_prepared(&self, sample: &Sample, data: &Vec<i32>) -> (r: Result<
        ExportedFile,
        BatcherbirdError,
    >)
        ensures
            wav_fault(self.config.sample_format.sample_encoding(), data@, sample) matches Some(e)
                ==> r == Err::<ExportedFile, BatcherbirdError>(e),
            wav_fault(self.config.sample_format.sample_encoding(), data@, sample) is None ==> (r
                matches Ok(file) && file.index == 0 && self.is_export_of(
                seq![*sample],
                seq![*data],
                file,
            )),
    {
        let format = self.config.sample_format.encoding_of_samples();
        match encode_wav(format, data, sample) {
            Ok(bytes) => {
                let name = self.generate_filename(sample);
                Ok(ExportedFile { index: 0, name, bytes })
            },
            Err(e) => Err(e),
        }
    }

    /// Exports a batch of segments, `data` holding the quantized values of
    /// each. A segment with a fault of `wav_fault` is reported with that
    /// fault and the batch goes on with the next; every other segment gives
    /// a file. So every segment ends up among the files or among the
    /// failures, and none in both. For the two instrument formats the
    /// instrument file over the exported segments is added.
    pub fn export_samples(&self, samples: &Vec<Sample>, data: &Vec<Vec<i32>>) -> (r: Result<
        ExportReport,
        BatcherbirdError,
    >)
        ensures
            data@.len() != samples@.len() ==> r == Err::<ExportReport, BatcherbirdError>(
                (BatcherbirdError::TraceMismatch {
                    expected: samples@.len() as usize,
                    found: data@.len() as usize,
                }),
            ),
            data@.len() == samples@.len() ==> r is Ok,
            r matches Ok(report) ==> report.exported@.len() + report.failures@.len()
                == samples@.len(),
            r matches Ok(report) ==> forall|k: int|
                0 <= k < report.exported@.len() ==> self.is_export_of(
                    samples@,
                    data@,
                    #[trigger] report.exported@[k],
                ),
            r matches Ok(report) ==> forall|k: int|
                0 <= k < report.failures@.len() ==> self.is_failure_of(
                    samples@,
                    data@,
                    #[trigger] report.failures@[k],
                ),
            r matches Ok(report) ==> forall|i: int|
                0 <= i < samples@.len() && wav_fault(
                    self.config.sample_format.sample_encoding(),
                    data@[i]@,
                    &samples@[i],
                ) is None ==> #[trigger] SampleExporter::has_file(report.exported@, i),
            r matches Ok(report) ==> ((forall|i: int|
                0 <= i < samples@.len() ==> wav_fault(
                    self.config.sample_format.sample_encoding(),
                    #[trigger] data@[i]@,
                    &samples@[i],
                ) is None) ==> report.failures@.len() == 0 && report.exported@.len()
                == samples@.len()),
            r matches Ok(report) ==> forall|k: int, l: int|
                0 <= k < l < report.exported@.len() ==> report.exported@[k].index
                    < report.exported@[l].index,
            r matches Ok(report) ==> forall|k: int, l: int|
                0 <= k < l < report.failures@.len() ==> report.failures@[k].index
                    < report.failures@[l].index,
            r matches Ok(report) ==> forall|k: int, l: int|
                0 <= k < report.exported@.len() && 0 <= l < report.failures@.len()
                    ==> report.exported@[k].index != report.failures@[l].index,
            r matches Ok(report) ==> (report.instrument is Some
                <==> self.config.sample_format.is_instrument()),
            r matches Ok(report) ==> (report.instrument matches Some(file) ==> exists|
                kept: Seq<Sample>,
                names: Seq<String>,
            | #[trigger]
                self.is_instrument_of(samples@, report.exported@, file, kept, names)),
    {
        if data.len() != samples.len() {
            return Err(
                BatcherbirdError::TraceMismatch { expected: samples.len(), found: data.len() },
            );
        }
        let format = self.config.sample_format.encoding_of_samples();
        let mut exported: Vec<ExportedFile> = Vec::new();
        let mut failures: Vec<ExportFailure> = Vec::new();
        let mut kept: Vec<Sample> = Vec::new();
        let mut names: Vec<String> = Vec::new();
        let mut i: usize = 0;
        while i < samples.len()
            invariant
                i <= samples@.len(),
                data@.len() == samples@.len(),
                format == self.config.sample_format.sample_encoding(),
                exported@.len() + failures@.len() == i,
                kept@.len() == exported@.len(),
                names@.len() == exported@.len(),
                forall|k: int|
                    0 <= k < exported@.len() ==> self.is_export_of(
                        samples@,
                        data@,
                        #[trigger] exported@[k],
                    ) && exported@[k].index < i,
                forall|k: int|
                    0 <= k < failures@.len() ==> self.is_failure_of(
                        samples@,
                        data@,
                        #[trigger] failures@[k],
                    ) && failures@[k].index < i,
                forall|j: int|
                    0 <= j < i && wav_fault(format, data@[j]@, &samples@[j]) is None
                        ==> #[trigger] SampleExporter::has_file(exported@, j),
                forall|k: int, l: int|
                    0 <= k < l < exported@.len() ==> exported@[k].index < exported@[l].index,
                forall|k: int, l: int|
                    0 <= k < l < failures@.len() ==> failures@[k].index < failures@[l].index,
                forall|k: int, l: int|
                    0 <= k < exported@.len() && 0 <= l < failures@.len() ==> exported@[k].index
                        != failures@[l].index,
                forall|k: int|
                    0 <= k < kept@.len() ==> (#[trigger] kept@[k]).note
                        == samples@[exported@[k].index as int].note && kept@[k].velocity
                        == samples@[exported@[k].index as int].velocity,
                forall|k: int| 0 <= k < names@.len() ==> #[trigger] names@[k]@ == exported@[k].name@,
            decreases samples@.len() - i,
        {
            let sample = &samples[i];
            let ghost before = exported@;
            match encode_wav(format, &data[i], sample) {
                Ok(bytes) => {
                    let name = self.generate_filename(sample);
                    names.push(name.clone());
                    kept.push(
                        Sample {
                            note: sample.note,
                            velocity: sample.velocity,
                            audio_data: Vec::new(),
                            sample_rate: sample.sample_rate,
                            channels: sample.channels,
                            recorded_at: sample.recorded_at,
                            midi_timing: sample.midi_timing,
                            audio_timing: sample.audio_timing,
                        },
                    );
                    exported.push(ExportedFile { index: i, name, bytes });
                    assert(SampleExporter::has_file(exported@, i as int)) by {
                        assert(exported@[exported@.len() - 1].index == i);
                    }
                },
                Err(error) => {
                    failures.push(ExportFailure { index: i, error });
                },
            }
            assert forall|j: int|
                0 <= j < i && wav_fault(format, data@[j]@, &samples@[j]) is None
                    implies #[trigger] SampleExporter::has_file(exported@, j) by {
                assert(SampleExporter::has_file(before, j));
                let k = choose|k: int| 0 <= k < before.len() && #[trigger] before[k].index == j;
                assert(exported@[k] == before[k]);
            }
            i = i + 1;
        }
        let instrument: Option<InstrumentFile> = match self.config.sample_format {
            AudioFormat::DecentSampler => Some(self.generate_dspreset_file(&kept, &names)),
            AudioFormat::SFZ => Some(self.generate_sfz_file(&kept, &names)),
            _ => None,
        };
        let ghost kept_view = kept@;
        let ghost names_view = names@;
        let report = ExportReport { exported, failures, instrument };
        proof {
            if report.instrument is Some {
                assert(self.is_instrument_of(
                    samples@,
                    report.exported@,
                    report.instrument->0,
                    kept_view,
                    names_view,
                ));
            }
            if forall|i: int|
                0 <= i < samples@.len() ==> wav_fault(format, #[trigger] data@[i]@, &samples@[i])
                    is None {
                if report.failures@.len() > 0 {
                    let first = report.failures@[0];
                    assert(self.is_failure_of(samples@, data@, first));
                    assert(wav_fault(
                        format,
                        data@[first.index as int]@,
                        &samples@[first.index as int],
                    ) is None);
                }
            }
        }
        Ok(report)
    }
}


/// The naming pattern for samples recorded under a name: the name, then
/// note name, note and velocity; without a name, these three alone.
pub open spec fn pattern_for(sample_name: Seq<char>) -> Seq<char> {
    if sample_name.len() == 0 {
        "{note_name}_{note}_{velocity}.wav"@
    } else {
        sample_name + "_{note_name}_{note}_{velocity}.wav"@
    }
}

/// The naming pattern for samples recorded under a name.
pub fn naming_pattern_for(sample_name: &str) -> (pattern: String)
    ensures
        pattern@ == pattern_for(sample_name@),
{
    if sample_name.unicode_len() == 0 {
        String::from_str("{note_name}_{note}_{velocity}.wav")
    } else {
        let mut pattern = String::from_str(sample_name);
        pattern.append("_{note_name}_{note}_{velocity}.wav");
        pattern
    }
}

impl AudioFormat {
    /// The format that a batch is exported in when the given kind of
    /// instrument is asked for: the two instrument formats by their names,
    /// 24-bit samples for `kontakt` and `all`, words otherwise.
    pub open spec fn chosen_by(kind: Seq<char>) -> AudioFormat {
        if kind == "decentsampler"@ {
            AudioFormat::DecentSampler
        } else if kind == "sfz"@ {
            AudioFormat::SFZ
        } else if kind == "kontakt"@ || kind == "all"@ {
            AudioFormat::Wav24Bit
        } else {
            AudioFormat::Wav32BitFloat
        }
    }

    /// The format that a batch is exported in when the given kind of
    /// instrument is asked for.
    pub fn from_name(kind: &str) -> (f: AudioFormat)
        ensures
            f == AudioFormat::chosen_by(kind@),
    {
        if same_text(kind, "decentsampler") {
            AudioFormat::DecentSampler
        } else if same_text(kind, "sfz") {
            AudioFormat::SFZ
        } else if same_text(kind, "kontakt") || same_text(kind, "all") {
            AudioFormat::Wav24Bit
        } else {
            AudioFormat::Wav32BitFloat
        }
    }
}

/// The files of a session are as many as its notes times its velocities,
/// less the failures that were reported: a session takes one segment for
/// each note at each velocity, and a batch export ends with a file or a
/// failure for each segment.
pub proof fn lemma_files_of_a_session(
    sweep: Sweep,
    cfg: SamplingConfig,
    segments: Seq<Sample>,
    report: ExportReport,
)
    requires
        sweep.valid(),
        segments.len() == segments_taken(sweep.plan(cfg)),
        report.exported@.len() + report.failures@.len() == segments.len(),
    ensures
        report.exported@.len() == sweep.notes * sweep.velocities.len() - report.failures@.len(),
{
    lemma_one_segment_per_note(sweep, cfg);
}


impl SampleExporter {
    /// The audio of a segment as it goes on to fading and encoding: cut
    /// to the detected boundaries where detection is switched on and
    /// succeeds, and as it is otherwise. `rms_values` and `threshold` are
    /// those of `SampleDetector::detect_boundaries`.
    pub fn trimmed_audio(&self, sample: &Sample, rms_values: Vec<u32>, threshold: u32) -> (audio:
        Vec<u32>)
        requires
            self.config.detection_config.valid(),
        ensures
            audio@ == if self.config.apply_detection {
                (SampleDetector { config: self.config.detection_config }).kept(
                    sample.audio_data@,
                    sample.sample_rate,
                    rms_values@,
                    threshold,
                )
            } else {
                sample.audio_data@
            },
    {
        let detector = SampleDetector::new(self.config.detection_config);
        if !self.config.apply_detection {
            let all = detector.trim_audio(
                sample.audio_data.as_slice(),
                &DetectionResult {
                    start_sample: 0,
                    end_sample: 0,
                    detected_start: 0,
                    detected_end: 0,
                    rms_values: Vec::new(),
                    success: false,
                    failure_reason: None,
                },
            );
            return all;
        }
        let r = detector.detect_boundaries(
            sample.audio_data.as_slice(),
            sample.sample_rate,
            rms_values,
            threshold,
        );
        match r {
            Ok(d) => {
                detector.trim_audio(sample.audio_data.as_slice(), &d)
            },
            Err(e) => {
                let all = copy_range(sample.audio_data.as_slice(), 0, sample.audio_data.len());
                assert(sample.audio_data@.subrange(0, sample.audio_data@.len() as int)
                    =~= sample.audio_data@);
                all
            },
        }
    }
}

/// The integer with the bit pattern of a word.
pub open spec fn word_as_value(w: u32) -> i32 {
    if w < 0x8000_0000 {
        w as i32
    } else {
        (w - 0x1_0000_0000) as i32
    }
}

/// The data that words are encoded from: the integers with their bit
/// patterns.
pub open spec fn as_data(words: Seq<u32>) -> Seq<i32> {
    Seq::new(words.len(), |k: int| word_as_value(words[k]))
}

/// The data that words are encoded from.
pub fn words_as_data(words: &[u32]) -> (data: Vec<i32>)
    ensures
        data@ == as_data(words@),
{
    let mut data: Vec<i32> = Vec::new();
    let mut k: usize = 0;
    while k < words.len()
        invariant
            k <= words@.len(),
            data@ == as_data(words@).take(k as int),
        decreases words@.len() - k,
    {
        let w: u32 = words[k];
        let v: i32 = if w < 0x8000_0000 {
            w as i32
        } else {
            (w as i64 - 0x1_0000_0000) as i32
        };
        data.push(v);
        assert(data@ =~= as_data(words@).take(k + 1));
        k = k + 1;
    }
    assert(as_data(words@).take(words@.len() as int) =~= as_data(words@));
    data
}

/// A sample file of words gives the words back bit for bit: after a
/// header of 68 bytes it holds four bytes for each word, in order, and
/// they hold the word, lowest byte first.
pub proof fn lemma_file_holds_words(bytes: Seq<u8>, words: Seq<u32>, sample: &Sample)
    requires
        is_sample_file(bytes, AudioFormat::Wav32BitFloat, as_data(words), sample),
    ensures
        bytes.len() == 68 + 4 * words.len(),
        forall|k: int| 0 <= k < words.len() ==> le32(bytes, 68 + 4 * k) == #[trigger] words[k],
{
    let layout = layout_for(AudioFormat::Wav32BitFloat, sample.channels, sample.sample_rate);
    let data = as_data(words);
    assert(data.len() == words.len());
    assert forall|k: int| 0 <= k < words.len() implies le32(bytes, 68 + 4 * k)
        == #[trigger] words[k] by {
        assert(layout.sample_at(bytes, 68 + layout.span(k)) == layout.stored(data[k]));
    }
}

/// What is left to do on the values of a segment before they are
/// encoded: the fades, then a gain where normalizing is switched on, then
/// rounding to the encoding.
#[derive(Debug)]
pub struct Work {
    /// The audio as it goes on to fading.
    pub audio: Vec<u32>,
    pub fades: Fades,
    /// After fading, the audio is normalized as `normalize_audio` says.
    pub normalize: bool,
    /// The encoding that the values are rounded to.
    pub encoding: AudioFormat,
}

/// A segment on its way into a file.
#[derive(Debug)]
pub enum Prepared {
    /// The values go into the file as they are: the data to encode.
    Ready(Vec<i32>),
    /// The values are to be worked on first.
    Work(Work),
}

/// What became of the export of one segment.
#[derive(Debug)]
pub enum ExportStep {
    /// The file is made.
    Done(ExportedFile),
    /// The values are to be worked on first; `export_prepared` makes the
    /// file from what they become.
    Work(Work),
}

impl SampleExporter {
    /// The audio of a segment as it goes on to fading: what detection
    /// keeps of it where detection is switched on, all of it otherwise.
    pub open spec fn kept(&self, sample: &Sample, rms: Seq<u32>, threshold: u32) -> Seq<u32> {
        if self.config.apply_detection {
            (SampleDetector { config: self.config.detection_config }).kept(
                sample.audio_data@,
                sample.sample_rate,
                rms,
                threshold,
            )
        } else {
            sample.audio_data@
        }
    }

    /// The fades of a buffer of `len` samples.
    pub open spec fn fades_of(&self, len: int, sample_rate: u32) -> Fades {
        Fades {
            fade_in: least(samples_in(self.config.fade_in_ms, sample_rate), len) as usize,
            fade_out: least(samples_in(self.config.fade_out_ms, sample_rate), len) as usize,
        }
    }

    /// Whether the values of the audio go into the file as they are: the
    /// samples are stored as words, no sample is faded, and no gain is
    /// applied, normalizing being switched off or the peak not lying
    /// between zero and one.
    pub open spec fn as_they_are(&self, audio: Seq<u32>, sample_rate: u32) -> bool {
        &&& self.config.sample_format == AudioFormat::Wav32BitFloat
        &&& self.fades_of(audio.len() as int, sample_rate).none()
        &&& !(self.config.normalize && 0 < peak_of(0, audio) < ONE)
    }

    /// What a segment is encoded from. The order of the steps is: trim
    /// to the detected boundaries, fade, normalize, round to the encoding.
    /// Where the last three change no value, the data are ready: they are
    /// the words that were kept. Otherwise the work that is left is handed
    /// out. `rms_values` and `threshold` are those of
    /// `SampleDetector::detect_boundaries`.
    pub fn prepare(&self, sample: &Sample, rms_values: Vec<u32>, threshold: u32) -> (p: Prepared)
        requires
            self.config.detection_config.valid(),
        ensures
            self.as_they_are(self.kept(sample, rms_values@, threshold), sample.sample_rate) ==> (p
                matches Prepared::Ready(data) && data@ == as_data(
                self.kept(sample, rms_values@, threshold),
            )),
            !self.as_they_are(self.kept(sample, rms_values@, threshold), sample.sample_rate) ==> (p
                matches Prepared::Work(work) && work.audio@ == self.kept(
                sample,
                rms_values@,
                threshold,
            ) && work.fades == self.fades_of(work.audio@.len() as int, sample.sample_rate)
                && work.normalize == self.config.normalize && work.encoding
                == self.config.sample_format.sample_encoding()),
    {
        let audio = self.trimmed_audio(sample, rms_values, threshold);
        let fades = self.apply_fades(audio.len(), sample.sample_rate);
        let encoding = self.config.sample_format.encoding_of_samples();
        let words: bool = match self.config.sample_format {
            AudioFormat::Wav32BitFloat => true,
            _ => false,
        };
        if words && fades.fade_in == 0 && fades.fade_out == 0 {
            match self.normalize_audio(audio.as_slice()) {
                None => {
                    return Prepared::Ready(words_as_data(audio.as_slice()));
                },
                Some(_) => {},
            }
        }
        Prepared::Work(Work { audio, fades, normalize: self.config.normalize, encoding })
    }

    /// Exports one segment, as far as no value has to be worked on.
    ///
    /// Where the values of the segment go into the file as they are, the
    /// file is made from the words that detection keeps, or from all of
    /// them where detection fails or is switched off: what `wav_fault`
    /// names is refused, everything else gives the file, which holds these
    /// words bit for bit. Where values have to be worked on first, the work
    /// is handed out and no file is made.
    pub fn export_sample(&self, sample: &Sample, rms_values: Vec<u32>, threshold: u32) -> (r:
        Result<ExportStep, BatcherbirdError>)
        requires
            self.config.detection_config.valid(),
        ensures
            ({
                let kept = self.kept(sample, rms_values@, threshold);
                if self.as_they_are(kept, sample.sample_rate) {
                    match wav_fault(AudioFormat::Wav32BitFloat, as_data(kept), sample) {
                        Some(e) => r == Err::<ExportStep, BatcherbirdError>(e),
                        None => r matches Ok(ExportStep::Done(file)) && file.index == 0
                            && self.is_name_of(sample, file.name@) && is_sample_file(
                            file.bytes@,
                            AudioFormat::Wav32BitFloat,
                            as_data(kept),
                            sample,
                        ) && file.bytes@.len() == 68 + 4 * kept.len() && forall|k: int|
                            0 <= k < kept.len() ==> le32(file.bytes@, 68 + 4 * k)
                                == #[trigger] kept[k],
                    }
                } else {
                    r matches Ok(ExportStep::Work(work)) && work.audio@ == kept && work.fades
                        == self.fades_of(kept.len() as int, sample.sample_rate) && work.normalize
                        == self.config.normalize && work.encoding
                        == self.config.sample_format.sample_encoding()
                }
            }),
    {
        match self.prepare(sample, rms_values, threshold) {
            Prepared::Ready(data) => match self.export_prepared(sample, &data) {
                Ok(file) => {
                    proof {
                        lemma_file_holds_words(
                            file.bytes@,
                            self.kept(sample, rms_values@, threshold),
                            sample,
                        );
                    }
                    Ok(ExportStep::Done(file))
                },
                Err(e) => Err(e),
            },
            Prepared::Work(work) => Ok(ExportStep::Work(work)),
        }
    }
}

} // verus!
