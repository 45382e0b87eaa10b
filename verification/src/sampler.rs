//! Timing of a capture, captured segments and the level meter.

use vstd::prelude::*;
use crate::config::{
    first_invalid_velocity, first_out_of_range, lemma_first_out_of_range, velocities_valid,
};
use crate::detection::{DetectionConfig, DetectionResult, SampleDetector};
use crate::error::BatcherbirdError;
use crate::loop_detection::{
    on_crossings, Crossfade, LoopDetectionConfig, LoopDetectionResult, LoopDetector, LoopScore,
};
use crate::notes::{note_name, sample_note_name};
use crate::ieee::{is_nan, magnitude, word_is_nan, word_magnitude, MINUS_SIXTY};
use crate::plan::{build_plan, Action, Sweep};

verus! {

/// Timing and addressing of one capture. Durations are in milliseconds.
#[derive(Debug, Clone, Copy, PartialEq, Eq, Structural)]
pub struct SamplingConfig {
    pub note_duration_ms: u64,
    pub release_time_ms: u64,
    pub pre_delay_ms: u64,
    pub post_delay_ms: u64,
    /// Channel on the wire, 0..=15.
    pub midi_channel: u8,
    pub velocity: u8,
}

impl Default for SamplingConfig {
    fn default() -> (c: SamplingConfig)
        ensures
            c == (SamplingConfig {
                note_duration_ms: 2000,
                release_time_ms: 1000,
                pre_delay_ms: 100,
                post_delay_ms: 100,
                midi_channel: 0,
                velocity: 100,
            }),
    {
        SamplingConfig {
            note_duration_ms: 2000,
            release_time_ms: 1000,
            pre_delay_ms: 100,
            post_delay_ms: 100,
            midi_channel: 0,
            velocity: 100,
        }
    }
}

/// Input levels as single-precision words: linear peak and RMS, and both
/// in dBFS.
#[derive(Debug, Clone, Copy, PartialEq, Eq, Structural)]
pub struct AudioLevels {
    pub peak: u32,
    pub rms: u32,
    pub peak_db: u32,
    pub rms_db: u32,
}

impl AudioLevels {
    /// The levels of silence: zero linear, minus sixty decibels.
    pub open spec fn silent() -> AudioLevels {
        AudioLevels { peak: 0, rms: 0, peak_db: MINUS_SIXTY, rms_db: MINUS_SIXTY }
    }
}

impl Default for AudioLevels {
    fn default() -> (l: AudioLevels)
        ensures
            l == AudioLevels::silent(),
    {
        AudioLevels { peak: 0, rms: 0, peak_db: MINUS_SIXTY, rms_db: MINUS_SIXTY }
    }
}

/// The four level words that the capture callback publishes and the meter
/// reads. Each word is stored and read on its own.
#[derive(Debug)]
pub struct LevelMeterState {
    input_peak: u32,
    input_rms: u32,
    input_peak_db: u32,
    input_rms_db: u32,
}

impl LevelMeterState {
    /// The levels that a reader gets.
    pub closed spec fn levels(&self) -> AudioLevels {
        AudioLevels {
            peak: self.input_peak,
            rms: self.input_rms,
            peak_db: self.input_peak_db,
            rms_db: self.input_rms_db,
        }
    }

    /// A meter that shows silence.
    pub fn new() -> (m: LevelMeterState)
        ensures
            m.levels() == AudioLevels::silent(),
    {
        LevelMeterState {
            input_peak: 0,
            input_rms: 0,
            input_peak_db: MINUS_SIXTY,
            input_rms_db: MINUS_SIXTY,
        }
    }

    /// Publishes new levels.
    pub fn update_levels(&mut self, levels: AudioLevels)
        ensures
            final(self).levels() == levels,
    {
        self.input_peak = levels.peak;
        self.input_rms = levels.rms;
        self.input_peak_db = levels.peak_db;
        self.input_rms_db = levels.rms_db;
    }

    /// The levels published last.
    pub fn get_levels(&self) -> (l: AudioLevels)
        ensures
            l == self.levels(),
    {
        AudioLevels {
            peak: self.input_peak,
            rms: self.input_rms,
            peak_db: self.input_peak_db,
            rms_db: self.input_rms_db,
        }
    }
}

impl Default for LevelMeterState {
    fn default() -> (m: LevelMeterState)
        ensures
            m.levels() == AudioLevels::silent(),
    {
        LevelMeterState::new()
    }
}


/// One recorded note.
///
/// `audio_data` holds the interleaved frames as single-precision words.
/// `recorded_at` is in milliseconds since the Unix epoch; `midi_timing`, the
/// measured gate, and `audio_timing`, the measured capture, are in
/// microseconds.
#[derive(Debug, Clone)]
pub struct Sample {
    pub note: u8,
    pub velocity: u8,
    pub audio_data: Vec<u32>,
    pub sample_rate: u32,
    pub channels: u16,
    pub recorded_at: u64,
    pub midi_timing: u64,
    pub audio_timing: u64,
}

impl Sample {
    /// A note in 0..=127, a velocity in 1..=127, at least one channel, and
    /// whole frames only.
    pub open spec fn wf(&self) -> bool {
        &&& self.note <= 127
        &&& 1 <= self.velocity <= 127
        &&& self.channels >= 1
        &&& self.audio_data@.len() % (self.channels as nat) == 0
    }

    /// Samples per channel of a well-formed segment.
    pub open spec fn samples_per_channel(&self) -> nat {
        self.audio_data@.len() / (self.channels as nat)
    }

    /// What keeps the segment from being well-formed, if anything: the
    /// note, then the velocity, then the frames.
    pub open spec fn fault(&self) -> Option<BatcherbirdError> {
        if self.note > 127 {
            Some(BatcherbirdError::InvalidNote { note: self.note })
        } else if !(1 <= self.velocity <= 127) {
            Some(BatcherbirdError::InvalidVelocity { velocity: self.velocity })
        } else if self.channels == 0 || self.audio_data@.len() % (self.channels as nat) != 0 {
            Some(BatcherbirdError::UnsupportedLayout)
        } else {
            None
        }
    }

    /// Checks that the segment is well-formed.
    pub fn check(&self) -> (r: Result<(), BatcherbirdError>)
        ensures
            self.wf() <==> r is Ok,
            self.fault() matches Some(e) ==> r == Err::<(), BatcherbirdError>(e),
    {
        if self.note > 127 {
            Err(BatcherbirdError::InvalidNote { note: self.note })
        } else if self.velocity < 1 || self.velocity > 127 {
            Err(BatcherbirdError::InvalidVelocity { velocity: self.velocity })
        } else if self.channels == 0 || self.audio_data.len() % (self.channels as usize) != 0 {
            Err(BatcherbirdError::UnsupportedLayout)
        } else {
            Ok(())
        }
    }
}


/// Plans the sessions of one configuration and keeps its level meter.
pub struct SamplingEngine {
    pub config: SamplingConfig,
    pub level_meter_state: LevelMeterState,
}

/// The velocities a session runs through: those of the list, or the
/// configured one where the list is empty.
pub open spec fn layers(cfg: SamplingConfig, velocities: Seq<u8>) -> Seq<u8> {
    if velocities.len() == 0 {
        seq![cfg.velocity]
    } else {
        velocities
    }
}

/// Why a session is refused before anything is sent, if it is: a range
/// that is not `start <= end <= 127` first, then the first velocity outside
/// 1..=127.
pub open spec fn session_fault(cfg: SamplingConfig, velocities: Seq<u8>, start: u8, end: u8)
    -> Option<BatcherbirdError> {
    let layers = layers(cfg, velocities);
    if !(start <= end <= 127) {
        Some(BatcherbirdError::InvalidRange { start, end })
    } else if !velocities_valid(layers) {
        Some(
            BatcherbirdError::InvalidVelocity {
                velocity: layers[first_out_of_range(layers)],
            },
        )
    } else {
        None
    }
}

impl SamplingEngine {
    pub fn new(config: SamplingConfig) -> (e: SamplingEngine)
        ensures
            e.config == config,
            e.level_meter_state.levels() == AudioLevels::silent(),
    {
        SamplingEngine { config, level_meter_state: LevelMeterState::new() }
    }

    /// The levels published last.
    pub fn get_audio_levels(&self) -> (l: AudioLevels)
        ensures
            l == self.level_meter_state.levels(),
    {
        self.level_meter_state.get_levels()
    }

    /// The actions that sample the notes `start_note..=end_note`, for each
    /// of the velocities in turn and within a velocity from the lowest note
    /// up; with an empty list, at the configured velocity. Nothing is
    /// planned for a range or a velocity that `session_fault` refuses.
    pub fn sample_velocity_layers(&self, velocities: &Vec<u8>, start_note: u8, end_note: u8) -> (r:
        Result<Vec<Action>, BatcherbirdError>)
        ensures
            session_fault(self.config, velocities@, start_note, end_note) matches Some(e) ==> r
                == Err::<Vec<Action>, BatcherbirdError>(e),
            session_fault(self.config, velocities@, start_note, end_note) is None ==> (r matches Ok(
                plan,
            ) && plan@ == (Sweep {
                velocities: layers(self.config, velocities@),
                start: start_note,
                notes: end_note - start_note + 1,
            }).plan(self.config)),
    {
        if !(start_note <= end_note && end_note <= 127) {
            return Err(BatcherbirdError::InvalidRange { start: start_note, end: end_note });
        }
        let mut single: Vec<u8> = Vec::new();
        single.push(self.config.velocity);
        let chosen: &Vec<u8> = if velocities.len() == 0 {
            &single
        } else {
            velocities
        };
        assert(chosen@ =~= layers(self.config, velocities@));
        proof {
            lemma_first_out_of_range(chosen@);
        }
        match first_invalid_velocity(chosen) {
            Some(i) => Err(BatcherbirdError::InvalidVelocity { velocity: chosen[i] }),
            None => Ok(build_plan(&self.config, chosen, start_note, end_note)),
        }
    }

    /// The actions that sample the notes `start_note..=end_note` at the
    /// configured velocity, on one stream.
    pub fn sample_note_range_blocking(&self, start_note: u8, end_note: u8) -> (r: Result<
        Vec<Action>,
        BatcherbirdError,
    >)
        ensures
            session_fault(self.config, Seq::<u8>::empty(), start_note, end_note) matches Some(e)
                ==> r == Err::<Vec<Action>, BatcherbirdError>(e),
            session_fault(self.config, Seq::<u8>::empty(), start_note, end_note) is None ==> (r
                matches Ok(plan) && plan@ == (Sweep {
                velocities: seq![self.config.velocity],
                start: start_note,
                notes: end_note - start_note + 1,
            }).plan(self.config)),
    {
        let none: Vec<u8> = Vec::new();
        self.sample_velocity_layers(&none, start_note, end_note)
    }

    /// The actions that sample one note at the configured velocity;
    /// `InvalidNote` for a note above 127.
    pub fn sample_single_note_blocking(&self, note: u8) -> (r: Result<
        Vec<Action>,
        BatcherbirdError,
    >)
        ensures
            note > 127 ==> r == Err::<Vec<Action>, BatcherbirdError>(
                (BatcherbirdError::InvalidNote { note }),
            ),
            note <= 127 && !(1 <= self.config.velocity <= 127) ==> r == Err::<
                Vec<Action>,
                BatcherbirdError,
            >((BatcherbirdError::InvalidVelocity { velocity: self.config.velocity })),
            note <= 127 && 1 <= self.config.velocity <= 127 ==> (r matches Ok(plan) && plan@ == (
            Sweep { velocities: seq![self.config.velocity], start: note, notes: 1 }).plan(
                self.config,
            )),
    {
        if note > 127 {
            return Err(BatcherbirdError::InvalidNote { note });
        }
        proof {
            let one = seq![self.config.velocity];
            lemma_first_out_of_range(one);
            if !(1 <= self.config.velocity <= 127) {
                assert(!(1 <= one[0] <= 127));
            }
        }
        self.sample_note_range_blocking(note, note)
    }
}


/// The peak so far after more samples: the largest magnitude among the
/// earlier peak and the samples that are numbers.
pub open spec fn peak_of(peak: u32, samples: Seq<u32>) -> u32
    decreases samples.len(),
{
    if samples.len() == 0 {
        peak
    } else {
        let before = peak_of(peak, samples.drop_last());
        if !is_nan(samples.last()) && magnitude(samples.last()) > before {
            magnitude(samples.last()) as u32
        } else {
            before
        }
    }
}

/// The peak is at least the earlier peak and the magnitude of every
/// sample that is a number, and it is one of them.
pub proof fn lemma_peak_of(peak: u32, samples: Seq<u32>)
    ensures
        peak_of(peak, samples) >= peak,
        forall|i: int|
            0 <= i < samples.len() && !is_nan(samples[i]) ==> peak_of(peak, samples) >= magnitude(
                #[trigger] samples[i],
            ),
        peak_of(peak, samples) == peak || exists|i: int|
            0 <= i < samples.len() && !is_nan(samples[i]) && peak_of(peak, samples) == magnitude(
                #[trigger] samples[i],
            ),
    decreases samples.len(),
{
    if samples.len() > 0 {
        let head = samples.drop_last();
        lemma_peak_of(peak, head);
        let before = peak_of(peak, head);
        let last = samples.len() - 1;
        assert forall|i: int| 0 <= i < samples.len() && !is_nan(samples[i]) implies peak_of(
            peak,
            samples,
        ) >= magnitude(#[trigger] samples[i]) by {
            if i < last {
                assert(head[i] == samples[i]);
            }
        }
        if peak_of(peak, samples) != peak {
            if peak_of(peak, samples) == before {
                let i = choose|i: int|
                    0 <= i < head.len() && !is_nan(head[i]) && before == magnitude(
                        #[trigger] head[i],
                    );
                assert(samples[i] == head[i]);
            } else {
                assert(peak_of(peak, samples) == magnitude(samples[last]));
            }
        }
    }
}

/// Keeps the peak of the input and counts the samples of the RMS window.
///
/// The sum of squares itself is kept by the caller, who takes the RMS of
/// what was accumulated after each call and starts the sum afresh when the
/// call says that the window is full.
#[derive(Debug)]
pub struct AudioLevelDetector {
    /// Largest magnitude since the last reset, as a word.
    pub peak_level: u32,
    /// Samples accumulated in the current window.
    pub rms_sample_count: u64,
    /// Samples in 300 ms.
    pub rms_window_size: u64,
}

impl AudioLevelDetector {
    /// A detector for a stream at `sample_rate`, with a window of 300 ms.
    pub fn new(sample_rate: u32) -> (d: AudioLevelDetector)
        ensures
            d.peak_level == 0,
            d.rms_sample_count == 0,
            d.rms_window_size == sample_rate as int * 3 / 10,
    {
        AudioLevelDetector {
            peak_level: 0,
            rms_sample_count: 0,
            rms_window_size: sample_rate as u64 * 3 / 10,
        }
    }

    /// Takes in the samples of one buffer. The peak rises to the largest
    /// magnitude seen. The result says whether the window is full with
    /// these samples; the count then starts again at zero.
    pub fn process_samples(&mut self, samples: &[u32]) -> (window_full: bool)
        ensures
            final(self).peak_level == peak_of(old(self).peak_level, samples@),
            final(self).rms_window_size == old(self).rms_window_size,
            window_full == (old(self).rms_sample_count + samples@.len() >= old(
                self,
            ).rms_window_size),
            final(self).rms_sample_count == if window_full {
                0
            } else {
                old(self).rms_sample_count + samples@.len()
            },
    {
        let mut i: usize = 0;
        while i < samples.len()
            invariant
                i <= samples@.len(),
                self.peak_level == peak_of(old(self).peak_level, samples@.take(i as int)),
                self.rms_window_size == old(self).rms_window_size,
                self.rms_sample_count == old(self).rms_sample_count,
            decreases samples@.len() - i,
        {
            let w: u32 = samples[i];
            proof {
                assert(samples@.take(i + 1).drop_last() =~= samples@.take(i as int));
                assert(samples@.take(i + 1).last() == w);
            }
            if !word_is_nan(w) {
                let m: u32 = word_magnitude(w);
                if m > self.peak_level {
                    self.peak_level = m;
                }
            }
            i = i + 1;
        }
        assert(samples@.take(samples@.len() as int) =~= samples@);
        let room: u64 = if self.rms_window_size > self.rms_sample_count {
            self.rms_window_size - self.rms_sample_count
        } else {
            0
        };
        if samples.len() as u64 >= room {
            self.rms_sample_count = 0;
            true
        } else {
            self.rms_sample_count = self.rms_sample_count + samples.len() as u64;
            false
        }
    }

    /// Lets the peak fall back to zero.
    pub fn reset_peak(&mut self)
        ensures
            final(self).peak_level == 0,
            final(self).rms_sample_count == old(self).rms_sample_count,
            final(self).rms_window_size == old(self).rms_window_size,
    {
        self.peak_level = 0;
    }
}


impl Sample {
    /// Detects the boundaries of the segment and, where the detection
    /// succeeds, cuts the segment to them. `rms_values` and `threshold` are
    /// those of `SampleDetector::detect_boundaries`. On a failed detection
    /// and on an error the segment stays as it is.
    pub fn apply_detection(&mut self, config: DetectionConfig, rms_values: Vec<u32>, threshold: u32)
        -> (r: Result<DetectionResult, BatcherbirdError>)
        requires
            config.valid(),
        ensures
            (SampleDetector { config }).is_detection_of(
                old(self).audio_data@,
                old(self).sample_rate,
                rms_values@,
                threshold,
                r,
            ),
            final(self).audio_data@ == (SampleDetector { config }).kept(
                old(self).audio_data@,
                old(self).sample_rate,
                rms_values@,
                threshold,
            ),
            r matches Ok(d) ==> 0 <= d.start_sample <= d.detected_start <= d.detected_end
                <= d.end_sample <= old(self).audio_data@.len(),
            final(self).note == old(self).note,
            final(self).velocity == old(self).velocity,
            final(self).sample_rate == old(self).sample_rate,
            final(self).channels == old(self).channels,
            final(self).recorded_at == old(self).recorded_at,
            final(self).midi_timing == old(self).midi_timing,
            final(self).audio_timing == old(self).audio_timing,
    {
        let detector = SampleDetector::new(config);
        let result = detector.detect_boundaries(
            self.audio_data.as_slice(),
            self.sample_rate,
            rms_values,
            threshold,
        );
        match result {
            Ok(d) => {
                if d.success {
                    let cut = detector.trim_audio(self.audio_data.as_slice(), &d);
                    self.audio_data = cut;
                }
                Ok(d)
            },
            Err(e) => Err(e),
        }
    }

    /// Searches the segment for loop points and says which crossfade the
    /// best candidate calls for, if the search succeeds. `scores` are
    /// those of `LoopDetector::detect_loop_points`.
    pub fn apply_loop_detection(&self, config: LoopDetectionConfig, scores: &[LoopScore]) -> (r:
        Result<(LoopDetectionResult, Option<Crossfade>), BatcherbirdError>)
        ensures
            r matches Ok(found) ==> (LoopDetector { config }).is_search_of(
                self.audio_data@,
                self.sample_rate,
                scores@,
                Ok(found.0),
            ),
            r matches Err(e) ==> (LoopDetector { config }).is_search_of(
                self.audio_data@,
                self.sample_rate,
                scores@,
                Err(e),
            ),
            r matches Ok(found) ==> found.1 == (if found.0.success {
                (LoopDetector { config }).crossfade_of(
                    self.audio_data@.len() as int,
                    found.0.best_candidate->0,
                    self.sample_rate,
                )
            } else {
                None
            }),
            r matches Ok(found) ==> forall|k: int|
                0 <= k < found.0.all_candidates@.len() ==> on_crossings(
                    self.audio_data@,
                    #[trigger] found.0.all_candidates@[k],
                ),
    {
        let detector = LoopDetector::new(config);
        match detector.detect_loop_points(self.audio_data.as_slice(), self.sample_rate, scores) {
            Ok(result) => {
                let fade: Option<Crossfade> = if result.success {
                    match result.best_candidate {
                        Some(best) => detector.apply_loop_with_crossfade(
                            self.audio_data.len(),
                            &best,
                            self.sample_rate,
                        ),
                        None => None,
                    }
                } else {
                    None
                };
                Ok((result, fade))
            },
            Err(e) => Err(e),
        }
    }

    /// The name of the note of the segment.
    pub fn note_to_name(note: u8) -> (name: String)
        ensures
            name@ == note_name(note),
    {
        sample_note_name(note)
    }
}


impl SamplingConfig {
    /// Milliseconds during which a note is recorded: pre-roll, gate,
    /// release and post-roll.
    pub open spec fn capture_ms(self) -> int {
        self.pre_delay_ms + self.note_duration_ms + self.release_time_ms + self.post_delay_ms
    }

    /// Samples that a segment is expected to hold: for each channel the
    /// samples of the capture time, rounded up. The settling wait after the
    /// channel panic, during which recording is on as well, is not counted.
    pub open spec fn expected_len(self, sample_rate: u32, channels: u16) -> int {
        channels * ((self.capture_ms() * sample_rate + 999) / 1000)
    }

    /// Samples that a segment is expected to hold.
    pub fn expected_samples(&self, sample_rate: u32, channels: u16) -> (n: u128)
        ensures
            n == self.expected_len(sample_rate, channels),
    {
        let ms: u128 = self.pre_delay_ms as u128 + self.note_duration_ms as u128
            + self.release_time_ms as u128 + self.post_delay_ms as u128;
        assert(ms * sample_rate <= 0x4_0000_0000_0000_0000 * 0xFFFF_FFFF) by (nonlinear_arith)
            requires
                0 <= ms <= 0x4_0000_0000_0000_0000,
                0 <= sample_rate <= 0xFFFF_FFFF,
        ;
        let per_channel: u128 = (ms * sample_rate as u128 + 999) / 1000;
        assert(channels * per_channel <= 0xFFFF * 0x4_0000_0000_0000_0000_0000_0000)
            by (nonlinear_arith)
            requires
                0 <= channels <= 0xFFFF,
                0 <= per_channel <= 0x4_0000_0000_0000_0000_0000_0000,
        ;
        channels as u128 * per_channel
    }

    /// Whether a segment of `len` samples has the expected length, give or
    /// take two callback buffers of `buffer` samples each.
    pub fn has_expected_length(&self, len: usize, sample_rate: u32, channels: u16, buffer: usize)
        -> (r: bool)
        ensures
            r == (self.expected_len(sample_rate, channels) - 2 * buffer <= len
                <= self.expected_len(sample_rate, channels) + 2 * buffer),
    {
        let expected: u128 = self.expected_samples(sample_rate, channels);
        let slack: u128 = 2 * (buffer as u128);
        (len as u128) + slack >= expected && (len as u128) <= expected + slack
    }
}

} // verus!
