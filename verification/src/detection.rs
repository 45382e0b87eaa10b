//! Silence-trimmed boundaries of a captured segment.
//!
//! The signal is cut into overlapping windows. The level of each window is
//! measured outside and handed in as a trace of single-precision words; from
//! the trace and a threshold word the boundaries are found here.

use vstd::prelude::*;
use crate::error::BatcherbirdError;
use crate::ieee::{gt, word_gt};

verus! {

/// How boundaries are detected. Durations are in milliseconds.
#[derive(Debug, Clone, Copy, PartialEq, Eq, Structural)]
pub struct DetectionConfig {
    /// Level in dBFS below which a window counts as silence, -60..=-10.
    pub threshold_db: i32,
    /// Length of an analysis window.
    pub window_size_ms: u32,
    /// Shortest segment that is accepted after trimming.
    pub min_sample_length_ms: u32,
    /// Kept before the detected start.
    pub pre_trigger_ms: u32,
    /// Kept after the detected end.
    pub post_trigger_ms: u32,
    /// Consecutive windows above the threshold that confirm a boundary.
    pub confirmation_windows: usize,
}

/// Why a segment was left untrimmed.
#[derive(Debug, Clone, Copy, PartialEq, Eq, Structural)]
pub enum DetectionFailure {
    /// The segment holds no audio.
    NoSignal,
    /// What would remain is shorter than the configured minimum.
    TooShort,
}

/// Boundaries of a segment, in samples of the analyzed buffer.
#[derive(Debug, Clone)]
pub struct DetectionResult {
    /// Start after the pre-trigger was taken off.
    pub start_sample: usize,
    /// End after the post-trigger was added.
    pub end_sample: usize,
    /// Start as detected.
    pub detected_start: usize,
    /// End as detected.
    pub detected_end: usize,
    /// The level trace that the boundaries were found on.
    pub rms_values: Vec<u32>,
    pub success: bool,
    pub failure_reason: Option<DetectionFailure>,
}

pub struct SampleDetector {
    pub config: DetectionConfig,
}

/// Threshold of the default settings, in dBFS.
pub const DEFAULT_THRESHOLD_DB: i32 = -40;

/// Threshold for percussive material, in dBFS.
pub const PERCUSSIVE_THRESHOLD_DB: i32 = -30;

/// Threshold for sustained material, in dBFS.
pub const SUSTAINED_THRESHOLD_DB: i32 = -50;

/// Threshold for noisy vintage instruments, in dBFS.
pub const VINTAGE_THRESHOLD_DB: i32 = -35;

/// Samples in `ms` milliseconds at `sample_rate`, rounded down.
pub open spec fn samples_in(ms: u32, sample_rate: u32) -> int {
    ms as int * sample_rate as int / 1000
}

/// Distance between the starts of two consecutive windows: half a window,
/// and one sample for a window of one.
pub open spec fn hop(window: int) -> int {
    if window / 2 == 0 {
        1
    } else {
        window / 2
    }
}

/// Number of windows over `len >= 1` samples: one over everything when
/// the window is longer than the buffer, else as many as fit whole.
pub open spec fn window_count(len: int, window: int) -> int {
    if window > len {
        1
    } else {
        (len - window) / hop(window) + 1
    }
}

/// First sample of window `i`.
pub open spec fn window_start(i: int, len: int, window: int) -> int {
    if window > len {
        0
    } else {
        i * hop(window)
    }
}

/// One past the last sample of window `i`.
pub open spec fn window_end(i: int, len: int, window: int) -> int {
    if window > len {
        len
    } else {
        i * hop(window) + window
    }
}

/// Window `i` of the trace lies above the threshold.
pub open spec fn above(rms: Seq<u32>, threshold: u32, i: int) -> bool {
    0 <= i < rms.len() && gt(rms[i], threshold)
}

/// The `count` windows from `from` on all lie above the threshold.
pub open spec fn run_above(rms: Seq<u32>, threshold: u32, from: int, count: int) -> bool {
    forall|j: int| from <= j < from + count ==> above(rms, threshold, j)
}

/// The `count` windows up to and including `end` all lie above the
/// threshold.
pub open spec fn run_ending(rms: Seq<u32>, threshold: u32, end: int, count: int) -> bool {
    end - count + 1 >= 0 && run_above(rms, threshold, end - count + 1, count)
}

/// The first window at or after `from` that begins a run of `count`
/// windows above the threshold.
pub open spec fn first_run(rms: Seq<u32>, threshold: u32, count: int, from: int) -> Option<int>
    decreases rms.len() - from,
{
    if from < 0 || from + count > rms.len() || count < 1 {
        None
    } else if run_above(rms, threshold, from, count) {
        Some(from)
    } else {
        first_run(rms, threshold, count, from + 1)
    }
}

/// The last window in `lo..=hi` that ends a run of `count` windows above
/// the threshold.
pub open spec fn last_run(rms: Seq<u32>, threshold: u32, count: int, lo: int, hi: int) -> Option<
    int,
>
    decreases hi - lo + 1,
{
    if hi < lo || lo < 0 || hi >= rms.len() || count < 1 {
        None
    } else if run_ending(rms, threshold, hi, count) {
        Some(hi)
    } else {
        last_run(rms, threshold, count, lo, hi - 1)
    }
}

/// The window where the signal starts: the first that begins a confirmed
/// run; failing that the first above the threshold; failing that window 0.
pub open spec fn start_window(rms: Seq<u32>, threshold: u32, confirm: int) -> int {
    match first_run(rms, threshold, confirm, 0) {
        Some(i) => i,
        None => match first_run(rms, threshold, 1, 0) {
            Some(i) => i,
            None => 0,
        },
    }
}

/// The window where the signal ends, not before `start`: the last that ends
/// a confirmed run; failing that the last above the threshold; failing that
/// the last window.
pub open spec fn end_window(rms: Seq<u32>, threshold: u32, confirm: int, start: int) -> int {
    match last_run(rms, threshold, confirm, start, rms.len() - 1) {
        Some(i) => i,
        None => match last_run(rms, threshold, 1, start, rms.len() - 1) {
            Some(i) => i,
            None => if rms.len() == 0 {
                0
            } else {
                rms.len() - 1
            },
        },
    }
}

/// The smaller of two numbers.
pub open spec fn least(a: int, b: int) -> int {
    if a <= b {
        a
    } else {
        b
    }
}

/// What `first_run` finds is a run, and no run starts before it.
pub proof fn lemma_first_run(rms: Seq<u32>, threshold: u32, count: int, from: int)
    requires
        0 <= from,
    ensures
        first_run(rms, threshold, count, from) matches Some(i) ==> from <= i && i + count
            <= rms.len() && run_above(rms, threshold, i, count) && forall|k: int|
            from <= k < i ==> !#[trigger] run_above(rms, threshold, k, count),
        first_run(rms, threshold, count, from) is None ==> forall|k: int|
            from <= k && k + count <= rms.len() && count >= 1 ==> !#[trigger] run_above(
                rms,
                threshold,
                k,
                count,
            ),
    decreases rms.len() - from,
{
    if from + count > rms.len() || count < 1 {
    } else if run_above(rms, threshold, from, count) {
    } else {
        lemma_first_run(rms, threshold, count, from + 1);
    }
}

/// What `last_run` finds ends a run within `lo..=hi`, and no run ends
/// after it there.
pub proof fn lemma_last_run(rms: Seq<u32>, threshold: u32, count: int, lo: int, hi: int)
    ensures
        last_run(rms, threshold, count, lo, hi) matches Some(i) ==> lo <= i <= hi && i
            < rms.len() && run_ending(rms, threshold, i, count) && forall|k: int|
            i < k <= hi ==> !#[trigger] run_ending(rms, threshold, k, count),
        last_run(rms, threshold, count, lo, hi) is None && 0 <= lo && hi < rms.len() && count >= 1
            ==> forall|k: int| lo <= k <= hi ==> !#[trigger] run_ending(rms, threshold, k, count),
    decreases hi - lo + 1,
{
    if hi < lo || lo < 0 || hi >= rms.len() || count < 1 {
    } else if run_ending(rms, threshold, hi, count) {
    } else {
        lemma_last_run(rms, threshold, count, lo, hi - 1);
    }
}

/// The start window is a window of the trace, and the end window lies at or
/// after the start it was searched from.
pub proof fn lemma_windows_ordered(rms: Seq<u32>, threshold: u32, confirm: int)
    requires
        rms.len() >= 1,
    ensures
        0 <= start_window(rms, threshold, confirm) < rms.len(),
        start_window(rms, threshold, confirm) <= end_window(
            rms,
            threshold,
            confirm,
            start_window(rms, threshold, confirm),
        ) < rms.len(),
{
    lemma_first_run(rms, threshold, confirm, 0);
    lemma_first_run(rms, threshold, 1, 0);
    let s = start_window(rms, threshold, confirm);
    lemma_last_run(rms, threshold, confirm, s, rms.len() - 1);
    lemma_last_run(rms, threshold, 1, s, rms.len() - 1);
}


/// `least(a * b, cap)`, computed without leaving 64 bits.
pub fn mul_capped(a: u64, b: u64, cap: u64) -> (r: u64)
    ensures
        r == least(a * b, cap as int),
{
    if a == 0 || b == 0 {
        assert(a * b == 0) by (nonlinear_arith)
            requires
                a == 0 || b == 0,
        ;
        return 0;
    }
    let most: u64 = cap / b;
    if a > most {
        assert(a * b > cap) by (nonlinear_arith)
            requires
                b > 0,
                a >= cap as int / b as int + 1,
        ;
        cap
    } else {
        assert(a * b <= cap) by (nonlinear_arith)
            requires
                b > 0,
                0 <= a <= cap as int / b as int,
        ;
        a * b
    }
}

/// Samples in `ms` milliseconds at `sample_rate`, rounded down.
pub fn ms_to_samples(ms: u32, sample_rate: u32) -> (n: u64)
    ensures
        n == samples_in(ms, sample_rate),
{
    assert(ms as int * sample_rate as int <= 0xFFFF_FFFF * 0xFFFF_FFFF) by (nonlinear_arith)
        requires
            0 <= ms <= 0xFFFF_FFFF,
            0 <= sample_rate <= 0xFFFF_FFFF,
    ;
    (ms as u64 * sample_rate as u64) / 1000
}

/// Whether the `count` windows from `from` on all lie above the threshold.
fn run_at(rms: &[u32], threshold: u32, from: usize, count: usize) -> (r: bool)
    requires
        from + count <= rms@.len(),
    ensures
        r == run_above(rms@, threshold, from as int, count as int),
{
    let n: usize = rms.len();
    let end: usize = from + count;
    let mut j: usize = from;
    while j < end
        invariant
            from <= j <= end,
            end == from + count,
            end <= rms@.len(),
            run_above(rms@, threshold, from as int, j - from),
        decreases end - j,
    {
        if !word_gt(rms[j], threshold) {
            assert(!above(rms@, threshold, j as int));
            return false;
        }
        j = j + 1;
    }
    true
}

/// The first window that begins a run of `count` windows above the
/// threshold.
fn scan_first(rms: &[u32], threshold: u32, count: usize) -> (r: Option<usize>)
    requires
        count >= 1,
    ensures
        r matches Some(i) ==> first_run(rms@, threshold, count as int, 0) == Some(i as int),
        r is None ==> first_run(rms@, threshold, count as int, 0) is None,
{
    let n: usize = rms.len();
    let mut i: usize = 0;
    while i < n && count <= n - i
        invariant
            n == rms@.len(),
            i <= n,
            count >= 1,
            first_run(rms@, threshold, count as int, 0) == first_run(
                rms@,
                threshold,
                count as int,
                i as int,
            ),
        decreases n - i,
    {
        if run_at(rms, threshold, i, count) {
            return Some(i);
        }
        i = i + 1;
    }
    None
}

/// The last window at or after `lo` that ends a run of `count` windows
/// above the threshold.
fn scan_last(rms: &[u32], threshold: u32, count: usize, lo: usize) -> (r: Option<usize>)
    requires
        count >= 1,
    ensures
        r matches Some(i) ==> last_run(rms@, threshold, count as int, lo as int, rms@.len() - 1)
            == Some(i as int),
        r is None ==> last_run(rms@, threshold, count as int, lo as int, rms@.len() - 1) is None,
{
    let n: usize = rms.len();
    if lo >= n {
        return None;
    }
    let mut i: usize = n;
    while i > lo
        invariant
            n == rms@.len(),
            lo <= i <= n,
            count >= 1,
            last_run(rms@, threshold, count as int, lo as int, n - 1) == last_run(
                rms@,
                threshold,
                count as int,
                lo as int,
                i - 1,
            ),
        decreases i - lo,
    {
        let hi: usize = i - 1;
        if hi + 1 >= count && run_at(rms, threshold, hi + 1 - count, count) {
            return Some(hi);
        }
        i = i - 1;
    }
    None
}

impl DetectionConfig {
    /// At least one window is needed to confirm a boundary.
    pub open spec fn valid(self) -> bool {
        self.confirmation_windows >= 1
    }

    /// Length of an analysis window in samples.
    pub open spec fn window(self, sample_rate: u32) -> int {
        samples_in(self.window_size_ms, sample_rate)
    }

    /// For drums and plucks: short windows, little padding.
    pub fn percussive() -> (c: DetectionConfig)
        ensures
            c == (DetectionConfig {
                threshold_db: PERCUSSIVE_THRESHOLD_DB,
                window_size_ms: 5,
                min_sample_length_ms: 50,
                pre_trigger_ms: 10,
                post_trigger_ms: 50,
                confirmation_windows: 2,
            }),
    {
        DetectionConfig {
            threshold_db: PERCUSSIVE_THRESHOLD_DB,
            window_size_ms: 5,
            min_sample_length_ms: 50,
            pre_trigger_ms: 10,
            post_trigger_ms: 50,
            confirmation_windows: 2,
        }
    }

    /// For pads and strings: long windows, long tails.
    pub fn sustained() -> (c: DetectionConfig)
        ensures
            c == (DetectionConfig {
                threshold_db: SUSTAINED_THRESHOLD_DB,
                window_size_ms: 20,
                min_sample_length_ms: 500,
                pre_trigger_ms: 50,
                post_trigger_ms: 500,
                confirmation_windows: 4,
            }),
    {
        DetectionConfig {
            threshold_db: SUSTAINED_THRESHOLD_DB,
            window_size_ms: 20,
            min_sample_length_ms: 500,
            pre_trigger_ms: 50,
            post_trigger_ms: 500,
            confirmation_windows: 4,
        }
    }

    /// For noisy vintage instruments.
    pub fn vintage_synth() -> (c: DetectionConfig)
        ensures
            c == (DetectionConfig {
                threshold_db: VINTAGE_THRESHOLD_DB,
                window_size_ms: 15,
                min_sample_length_ms: 200,
                pre_trigger_ms: 30,
                post_trigger_ms: 300,
                confirmation_windows: 3,
            }),
    {
        DetectionConfig {
            threshold_db: VINTAGE_THRESHOLD_DB,
            window_size_ms: 15,
            min_sample_length_ms: 200,
            pre_trigger_ms: 30,
            post_trigger_ms: 300,
            confirmation_windows: 3,
        }
    }
}

impl Default for DetectionConfig {
    /// A cautious threshold and windows of 10 ms.
    fn default() -> (c: DetectionConfig)
        ensures
            c == (DetectionConfig {
                threshold_db: DEFAULT_THRESHOLD_DB,
                window_size_ms: 10,
                min_sample_length_ms: 100,
                pre_trigger_ms: 20,
                post_trigger_ms: 200,
                confirmation_windows: 3,
            }),
    {
        DetectionConfig {
            threshold_db: DEFAULT_THRESHOLD_DB,
            window_size_ms: 10,
            min_sample_length_ms: 100,
            pre_trigger_ms: 20,
            post_trigger_ms: 200,
            confirmation_windows: 3,
        }
    }
}

impl DetectionFailure {
    /// The reason in words.
    pub open spec fn words(self) -> Seq<char> {
        match self {
            DetectionFailure::NoSignal => "no signal"@,
            DetectionFailure::TooShort => "Sample too short after detection"@,
        }
    }

    pub fn reason(self) -> (s: &'static str)
        ensures
            s@ == self.words(),
    {
        match self {
            DetectionFailure::NoSignal => "no signal",
            DetectionFailure::TooShort => "Sample too short after detection",
        }
    }
}


impl SampleDetector {
    pub fn new(config: DetectionConfig) -> (d: SampleDetector)
        ensures
            d.config == config,
    {
        SampleDetector { config }
    }

    /// A detector with the default settings.
    pub fn default() -> (d: SampleDetector)
        ensures
            d.config == (DetectionConfig {
                threshold_db: DEFAULT_THRESHOLD_DB,
                window_size_ms: 10,
                min_sample_length_ms: 100,
                pre_trigger_ms: 20,
                post_trigger_ms: 200,
                confirmation_windows: 3,
            }),
            d.config.valid(),
    {
        SampleDetector::new(DetectionConfig::default())
    }

    /// The detected start in samples: the start window times the window
    /// length, held to the buffer.
    pub open spec fn raw_start(&self, len: int, sample_rate: u32, rms: Seq<u32>, threshold: u32)
        -> int {
        least(
            start_window(rms, threshold, self.config.confirmation_windows as int)
                * self.config.window(sample_rate),
            len,
        )
    }

    /// The detected end in samples: one past the end window, times the
    /// window length, held to the buffer.
    pub open spec fn raw_end(&self, len: int, sample_rate: u32, rms: Seq<u32>, threshold: u32)
        -> int {
        let confirm = self.config.confirmation_windows as int;
        least(
            (end_window(rms, threshold, confirm, start_window(rms, threshold, confirm)) + 1)
                * self.config.window(sample_rate),
            len,
        )
    }

    /// The detected start less the pre-trigger, not below 0.
    pub open spec fn padded_start(
        &self,
        len: int,
        sample_rate: u32,
        rms: Seq<u32>,
        threshold: u32,
    ) -> int {
        let raw = self.raw_start(len, sample_rate, rms, threshold);
        let pre = samples_in(self.config.pre_trigger_ms, sample_rate);
        if raw >= pre {
            raw - pre
        } else {
            0
        }
    }

    /// The detected end plus the post-trigger, not beyond the buffer.
    pub open spec fn padded_end(&self, len: int, sample_rate: u32, rms: Seq<u32>, threshold: u32)
        -> int {
        least(
            self.raw_end(len, sample_rate, rms, threshold) + samples_in(
                self.config.post_trigger_ms,
                sample_rate,
            ),
            len,
        )
    }

    /// Whether what lies between the padded boundaries reaches the
    /// configured minimum.
    pub open spec fn long_enough(&self, len: int, sample_rate: u32, rms: Seq<u32>, threshold: u32)
        -> bool {
        self.padded_end(len, sample_rate, rms, threshold) - self.padded_start(
            len,
            sample_rate,
            rms,
            threshold,
        ) >= samples_in(self.config.min_sample_length_ms, sample_rate)
    }

    /// Number of analysis windows over a buffer of `len` samples, or
    /// `WindowTooSmall` when the window holds no sample at this rate.
    pub fn window_count(&self, len: usize, sample_rate: u32) -> (r: Result<
        usize,
        BatcherbirdError,
    >)
        requires
            len >= 1,
        ensures
            self.config.window(sample_rate) == 0 ==> r == Err::<usize, BatcherbirdError>(
                BatcherbirdError::WindowTooSmall,
            ),
            self.config.window(sample_rate) > 0 ==> r == Ok::<usize, BatcherbirdError>(
                window_count(len as int, self.config.window(sample_rate)) as usize,
            ) && 1 <= window_count(len as int, self.config.window(sample_rate)) <= len,
    {
        let window: u64 = ms_to_samples(self.config.window_size_ms, sample_rate);
        if window == 0 {
            return Err(BatcherbirdError::WindowTooSmall);
        }
        if window > len as u64 {
            return Ok(1);
        }
        let step: u64 = if window / 2 == 0 {
            1
        } else {
            window / 2
        };
        let room: u64 = len as u64 - window;
        assert(room as int / step as int <= room) by (nonlinear_arith)
            requires
                room >= 0,
                step >= 1,
        ;
        Ok((room / step + 1) as usize)
    }

    /// The samples `start..end` that window `index` covers.
    pub fn window_span(&self, index: usize, len: usize, sample_rate: u32) -> (span: (usize, usize))
        requires
            len >= 1,
            self.config.window(sample_rate) > 0,
            index < window_count(len as int, self.config.window(sample_rate)),
        ensures
            span.0 == window_start(index as int, len as int, self.config.window(sample_rate)),
            span.1 == window_end(index as int, len as int, self.config.window(sample_rate)),
            span.0 < span.1 <= len,
    {
        let window: u64 = ms_to_samples(self.config.window_size_ms, sample_rate);
        if window > len as u64 {
            return (0, len);
        }
        let step: u64 = if window / 2 == 0 {
            1
        } else {
            window / 2
        };
        let room: u64 = len as u64 - window;
        assert(index as int * step as int <= room) by (nonlinear_arith)
            requires
                room >= 0,
                step >= 1,
                0 <= index as int <= room as int / step as int,
        ;
        let start: u64 = index as u64 * step;
        (start as usize, (start + window) as usize)
    }

    /// The window where the signal starts.
    pub fn find_start_boundary(&self, rms_values: &[u32], threshold: u32) -> (w: usize)
        requires
            self.config.valid(),
        ensures
            w == start_window(rms_values@, threshold, self.config.confirmation_windows as int),
    {
        match scan_first(rms_values, threshold, self.config.confirmation_windows) {
            Some(i) => i,
            None => match scan_first(rms_values, threshold, 1) {
                Some(i) => i,
                None => 0,
            },
        }
    }

    /// The window where the signal ends, searched from the last window down
    /// to `start_window`.
    pub fn find_end_boundary(&self, rms_values: &[u32], threshold: u32, start_window: usize) -> (w:
        usize)
        requires
            self.config.valid(),
        ensures
            w == end_window(
                rms_values@,
                threshold,
                self.config.confirmation_windows as int,
                start_window as int,
            ),
    {
        match scan_last(rms_values, threshold, self.config.confirmation_windows, start_window) {
            Some(i) => i,
            None => match scan_last(rms_values, threshold, 1, start_window) {
                Some(i) => i,
                None => if rms_values.len() == 0 {
                    0
                } else {
                    rms_values.len() - 1
                },
            },
        }
    }

    /// Start and end window of the signal in a trace that is not empty.
    pub fn find_signal_boundaries(&self, rms_values: &[u32], threshold: u32) -> (w: (usize, usize))
        requires
            self.config.valid(),
            rms_values@.len() >= 1,
        ensures
            w.0 == start_window(rms_values@, threshold, self.config.confirmation_windows as int),
            w.1 == end_window(
                rms_values@,
                threshold,
                self.config.confirmation_windows as int,
                w.0 as int,
            ),
            w.0 <= w.1 < rms_values@.len(),
    {
        let start: usize = self.find_start_boundary(rms_values, threshold);
        let end: usize = self.find_end_boundary(rms_values, threshold, start);
        proof {
            lemma_windows_ordered(rms_values@, threshold, self.config.confirmation_windows as int);
        }
        (start, end)
    }
}


/// The part of a buffer that a detection keeps: the samples between the
/// boundaries, both held to the buffer, or everything when the detection
/// failed or the boundaries enclose nothing.
pub open spec fn trimmed(audio: Seq<u32>, success: bool, start: int, end: int) -> Seq<u32> {
    let s = least(start, audio.len() as int);
    let e = least(end, audio.len() as int);
    if !success || s >= e {
        audio
    } else {
        audio.subrange(s, e)
    }
}

/// Trimming keeps the samples between the boundaries and nothing else;
/// with boundaries that enclose the whole buffer, as a second detection
/// finds them on a buffer that holds signal from its first window to its
/// last, it keeps the buffer as it is.
pub proof fn lemma_trimmed(audio: Seq<u32>, success: bool, start: int, end: int)
    requires
        0 <= start <= end <= audio.len(),
    ensures
        success && start < end ==> trimmed(audio, success, start, end).len() == end - start,
        success && start < end ==> forall|i: int|
            0 <= i < end - start ==> trimmed(audio, success, start, end)[i] == audio[start + i],
        start == 0 && end == audio.len() ==> trimmed(audio, success, start, end) == audio,
{
    if start == 0 && end == audio.len() && success && start < end {
        assert(audio.subrange(0, audio.len() as int) =~= audio);
    }
}

/// The samples `from..to` of a buffer.
pub fn copy_range(audio: &[u32], from: usize, to: usize) -> (out: Vec<u32>)
    requires
        from <= to <= audio@.len(),
    ensures
        out@ == audio@.subrange(from as int, to as int),
{
    let mut out: Vec<u32> = Vec::new();
    let mut i: usize = from;
    while i < to
        invariant
            from <= i <= to <= audio@.len(),
            out@ == audio@.subrange(from as int, i as int),
        decreases to - i,
    {
        out.push(audio[i]);
        assert(out@ =~= audio@.subrange(from as int, i + 1));
        i = i + 1;
    }
    out
}

impl SampleDetector {
    /// What `detect_boundaries` returns for a buffer, its level trace and a
    /// threshold.
    pub open spec fn is_detection_of(
        &self,
        audio: Seq<u32>,
        sample_rate: u32,
        rms: Seq<u32>,
        threshold: u32,
        r: Result<DetectionResult, BatcherbirdError>,
    ) -> bool {
        let len = audio.len() as int;
        let window = self.config.window(sample_rate);
        if len == 0 {
            r matches Ok(d) && !d.success && d.failure_reason == Some(DetectionFailure::NoSignal)
                && d.start_sample == 0 && d.end_sample == 0 && d.detected_start == 0
                && d.detected_end == 0 && d.rms_values@.len() == 0
        } else if window == 0 {
            r == Err::<DetectionResult, BatcherbirdError>(BatcherbirdError::WindowTooSmall)
        } else if rms.len() != window_count(len, window) {
            r == Err::<DetectionResult, BatcherbirdError>(
                (BatcherbirdError::TraceMismatch {
                    expected: window_count(len, window) as usize,
                    found: rms.len() as usize,
                }),
            )
        } else {
            r matches Ok(d) && {
                &&& d.rms_values@ == rms
                &&& d.detected_start == self.raw_start(len, sample_rate, rms, threshold)
                &&& d.detected_end == self.raw_end(len, sample_rate, rms, threshold)
                &&& d.success == self.long_enough(len, sample_rate, rms, threshold)
                &&& d.success ==> d.failure_reason is None && d.start_sample == self.padded_start(
                    len,
                    sample_rate,
                    rms,
                    threshold,
                ) && d.end_sample == self.padded_end(len, sample_rate, rms, threshold)
                &&& !d.success ==> d.failure_reason == Some(DetectionFailure::TooShort)
                    && d.start_sample == 0 && d.end_sample == len
            }
        }
    }

    /// What is left of a buffer after detection and trimming: the samples
    /// between the padded boundaries where the detection succeeds and
    /// they enclose something, the whole buffer otherwise.
    pub open spec fn kept(&self, audio: Seq<u32>, sample_rate: u32, rms: Seq<u32>, threshold: u32)
        -> Seq<u32> {
        let len = audio.len() as int;
        let window = self.config.window(sample_rate);
        if len == 0 || window == 0 || rms.len() != window_count(len, window) {
            audio
        } else {
            trimmed(
                audio,
                self.long_enough(len, sample_rate, rms, threshold),
                self.padded_start(len, sample_rate, rms, threshold),
                self.padded_end(len, sample_rate, rms, threshold),
            )
        }
    }

    /// The boundaries of a detection lie in order within the buffer: the
    /// padded start at or before the detected start, that at or before the
    /// detected end, that at or before the padded end. What a successful
    /// detection keeps is at least as long as the configured minimum; a
    /// failed one keeps the buffer as it is.
    pub proof fn lemma_boundaries(
        &self,
        audio: Seq<u32>,
        sample_rate: u32,
        rms: Seq<u32>,
        threshold: u32,
    )
        requires
            self.config.valid(),
            audio.len() >= 1,
            self.config.window(sample_rate) > 0,
            rms.len() == window_count(audio.len() as int, self.config.window(sample_rate)),
        ensures
            ({
                let len = audio.len() as int;
                &&& 0 <= self.padded_start(len, sample_rate, rms, threshold) <= self.raw_start(
                    len,
                    sample_rate,
                    rms,
                    threshold,
                ) <= self.raw_end(len, sample_rate, rms, threshold) <= self.padded_end(
                    len,
                    sample_rate,
                    rms,
                    threshold,
                ) <= len
                &&& self.long_enough(len, sample_rate, rms, threshold) ==> self.kept(
                    audio,
                    sample_rate,
                    rms,
                    threshold,
                ).len() >= samples_in(self.config.min_sample_length_ms, sample_rate)
                &&& !self.long_enough(len, sample_rate, rms, threshold) ==> self.kept(
                    audio,
                    sample_rate,
                    rms,
                    threshold,
                ) == audio
            }),
    {
        let len = audio.len() as int;
        let window = self.config.window(sample_rate);
        let confirm = self.config.confirmation_windows as int;
        let first = start_window(rms, threshold, confirm);
        let last = end_window(rms, threshold, confirm, first);
        assert(window_count(len, window) >= 1) by {
            if window <= len {
                assert((len - window) / hop(window) >= 0) by (nonlinear_arith)
                    requires
                        len - window >= 0,
                        hop(window) >= 1,
                ;
            }
        }
        lemma_windows_ordered(rms, threshold, confirm);
        assert(0 <= first * window <= (last + 1) * window) by (nonlinear_arith)
            requires
                0 <= first <= last,
                window > 0,
        ;
        assert(samples_in(self.config.pre_trigger_ms, sample_rate) >= 0
            && samples_in(self.config.post_trigger_ms, sample_rate) >= 0
            && samples_in(self.config.min_sample_length_ms, sample_rate) >= 0);
    }

    /// A buffer that holds signal from its first windows to its last keeps
    /// its boundaries: where the first windows of the trace and the last
    /// confirm a boundary, the signal is detected from sample 0 up to less
    /// than a window before the end of the buffer, and the padded start is
    /// the start of the buffer. So a second detection stays within one
    /// window of the buffer wherever the buffer that the first one kept
    /// holds signal at both its ends.
    pub proof fn lemma_signal_throughout(
        &self,
        len: int,
        sample_rate: u32,
        rms: Seq<u32>,
        threshold: u32,
    )
        requires
            self.config.valid(),
            len >= 1,
            self.config.window(sample_rate) > 0,
            rms.len() == window_count(len, self.config.window(sample_rate)),
            run_above(rms, threshold, 0, self.config.confirmation_windows as int),
            run_ending(rms, threshold, rms.len() - 1, self.config.confirmation_windows as int),
        ensures
            self.raw_start(len, sample_rate, rms, threshold) == 0,
            self.padded_start(len, sample_rate, rms, threshold) == 0,
            len - self.config.window(sample_rate) < self.raw_end(len, sample_rate, rms, threshold)
                <= self.padded_end(len, sample_rate, rms, threshold) <= len,
    {
        let window = self.config.window(sample_rate);
        let confirm = self.config.confirmation_windows as int;
        let n = rms.len() as int;
        let step = hop(window);
        assert(n >= 1 && n * window > len - window) by {
            if window <= len {
                let room = len - window;
                assert(room / step >= 0 && (room / step) * step > room - step) by (nonlinear_arith)
                    requires
                        room >= 0,
                        step >= 1,
                ;
                assert((room / step + 1) * window >= (room / step) * step + window)
                    by (nonlinear_arith)
                    requires
                        room / step >= 0,
                        window >= step,
                        step >= 1,
                ;
            } else {
                assert(1 * window == window);
            }
        }
        assert(above(rms, threshold, 0));
        assert(confirm <= n) by {
            if confirm > n {
                assert(above(rms, threshold, n));
            }
        }
        assert(first_run(rms, threshold, confirm, 0) == Some(0int));
        assert(last_run(rms, threshold, confirm, 0, n - 1) == Some(n - 1));
        assert(samples_in(self.config.pre_trigger_ms, sample_rate) >= 0 && samples_in(
            self.config.post_trigger_ms,
            sample_rate,
        ) >= 0);
        assert(0 * window == 0);
    }

    /// Finds the boundaries of the signal in a buffer from its level trace.
    ///
    /// `rms_values` holds the level of each analysis window in order, one
    /// word per window of `window_count`, and `threshold` the level above
    /// which a window counts as signal.
    ///
    /// An empty buffer gives a failed detection with the reason `NoSignal`.
    /// A window of no samples is refused with `WindowTooSmall`, a trace of
    /// another length than the window count with `TraceMismatch`. Otherwise
    /// the detected boundaries are those of `raw_start` and `raw_end`; the
    /// detection succeeds with the padded boundaries when they enclose at
    /// least the minimum length, and fails with `TooShort` and the whole
    /// buffer when they do not. In both cases
    /// `start <= detected start <= detected end <= end <= length`.
    pub fn detect_boundaries(
        &self,
        audio_data: &[u32],
        sample_rate: u32,
        rms_values: Vec<u32>,
        threshold: u32,
    ) -> (r: Result<DetectionResult, BatcherbirdError>)
        requires
            self.config.valid(),
        ensures
            self.is_detection_of(audio_data@, sample_rate, rms_values@, threshold, r),
            r matches Ok(d) ==> 0 <= d.start_sample <= d.detected_start <= d.detected_end
                <= d.end_sample <= audio_data@.len(),
    {
        let len: usize = audio_data.len();
        if len == 0 {
            return Ok(
                DetectionResult {
                    start_sample: 0,
                    end_sample: 0,
                    detected_start: 0,
                    detected_end: 0,
                    rms_values: Vec::new(),
                    success: false,
                    failure_reason: Some(DetectionFailure::NoSignal),
                },
            );
        }
        let expected: usize = match self.window_count(len, sample_rate) {
            Ok(n) => n,
            Err(e) => {
                return Err(e);
            },
        };
        if rms_values.len() != expected {
            return Err(BatcherbirdError::TraceMismatch { expected, found: rms_values.len() });
        }
        let window: u64 = ms_to_samples(self.config.window_size_ms, sample_rate);
        let (first, last): (usize, usize) = self.find_signal_boundaries(
            rms_values.as_slice(),
            threshold,
        );
        let total: u64 = len as u64;
        let raw_start: u64 = mul_capped(first as u64, window, total);
        let raw_end: u64 = mul_capped(last as u64 + 1, window, total);
        assert(first as int * window as int <= (last as int + 1) * window as int)
            by (nonlinear_arith)
            requires
                0 <= first <= last,
                window >= 0,
        ;
        let pre: u64 = ms_to_samples(self.config.pre_trigger_ms, sample_rate);
        let post: u64 = ms_to_samples(self.config.post_trigger_ms, sample_rate);
        let least_length: u64 = ms_to_samples(self.config.min_sample_length_ms, sample_rate);
        let final_start: u64 = if raw_start >= pre {
            raw_start - pre
        } else {
            0
        };
        let final_end: u64 = if post >= total - raw_end {
            total
        } else {
            raw_end + post
        };
        if final_end - final_start < least_length {
            return Ok(
                DetectionResult {
                    start_sample: 0,
                    end_sample: len,
                    detected_start: raw_start as usize,
                    detected_end: raw_end as usize,
                    rms_values,
                    success: false,
                    failure_reason: Some(DetectionFailure::TooShort),
                },
            );
        }
        Ok(
            DetectionResult {
                start_sample: final_start as usize,
                end_sample: final_end as usize,
                detected_start: raw_start as usize,
                detected_end: raw_end as usize,
                rms_values,
                success: true,
                failure_reason: None,
            },
        )
    }

    /// The buffer cut to the boundaries of a successful detection; the
    /// whole buffer when the detection failed or encloses nothing.
    pub fn trim_audio(&self, audio_data: &[u32], detection: &DetectionResult) -> (out: Vec<u32>)
        ensures
            out@ == trimmed(
                audio_data@,
                detection.success,
                detection.start_sample as int,
                detection.end_sample as int,
            ),
    {
        let len: usize = audio_data.len();
        if !detection.success {
            let out = copy_range(audio_data, 0, len);
            assert(audio_data@.subrange(0, len as int) =~= audio_data@);
            return out;
        }
        let start: usize = if detection.start_sample < len {
            detection.start_sample
        } else {
            len
        };
        let end: usize = if detection.end_sample < len {
            detection.end_sample
        } else {
            len
        };
        if start >= end {
            let out = copy_range(audio_data, 0, len);
            assert(audio_data@.subrange(0, len as int) =~= audio_data@);
            return out;
        }
        copy_range(audio_data, start, end)
    }
}

} // verus!
