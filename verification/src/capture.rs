//! What the capture callback does with the frames of each buffer.
//!
//! The input stream stays open across the notes of a session. Its callback
//! hands every buffer, already converted to single-precision words, to a
//! tap, which keeps the frames only while recording is switched on.

use vstd::prelude::*;
use crate::error::BatcherbirdError;
use crate::plan::{rig_after, Action, Sweep, lemma_cleared_before_recording};
use crate::sampler::SamplingConfig;

verus! {

/// The sample formats an input device may deliver.
#[derive(Debug, Clone, Copy, PartialEq, Eq, Structural)]
pub enum StreamFormat {
    /// Single-precision samples, taken as they are.
    Float32,
    /// Signed 16-bit samples, divided by 32767.
    Signed16,
    /// Unsigned 16-bit samples, less 32768 and divided by 32768.
    Unsigned16,
    /// Anything else: the stream is not opened.
    Other,
}

impl StreamFormat {
    /// The three formats that are converted.
    pub open spec fn supported(self) -> bool {
        self != StreamFormat::Other
    }

    pub fn is_supported(self) -> (r: bool)
        ensures
            r == self.supported(),
    {
        match self {
            StreamFormat::Other => false,
            _ => true,
        }
    }

    /// The format, if it is one of the three that are converted;
    /// `UnsupportedFormat` with the name that the device gives it, if not.
    pub fn require(self, name: String) -> (r: Result<StreamFormat, BatcherbirdError>)
        ensures
            self.supported() ==> r == Ok::<StreamFormat, BatcherbirdError>(self),
            !self.supported() ==> r == Err::<StreamFormat, BatcherbirdError>(
                BatcherbirdError::UnsupportedFormat(name),
            ),
    {
        match self {
            StreamFormat::Other => Err(BatcherbirdError::UnsupportedFormat(name)),
            supported => Ok(supported),
        }
    }
}

/// The recording flag and the buffer that the callback and the driver
/// share.
pub struct CaptureTap {
    pub recording_active: bool,
    pub buffer: Vec<u32>,
}

/// The buffer after a delivery of frames: longer by the frames while
/// recording is on, unchanged while it is off.
pub open spec fn delivered(recording: bool, buffer: Seq<u32>, frames: Seq<u32>) -> Seq<u32> {
    if recording {
        buffer + frames
    } else {
        buffer
    }
}

/// The buffer after several deliveries in a row.
pub open spec fn delivered_all(recording: bool, buffer: Seq<u32>, batches: Seq<Seq<u32>>) -> Seq<
    u32,
>
    decreases batches.len(),
{
    if batches.len() == 0 {
        buffer
    } else {
        delivered(recording, delivered_all(recording, buffer, batches.drop_last()), batches.last())
    }
}

/// All frames of the batches, in order.
pub open spec fn flattened(batches: Seq<Seq<u32>>) -> Seq<u32>
    decreases batches.len(),
{
    if batches.len() == 0 {
        Seq::empty()
    } else {
        flattened(batches.drop_last()) + batches.last()
    }
}

/// While recording is off nothing reaches the buffer; while it is on, all
/// frames reach it in the order of capture.
pub proof fn lemma_deliveries(recording: bool, buffer: Seq<u32>, batches: Seq<Seq<u32>>)
    ensures
        !recording ==> delivered_all(recording, buffer, batches) == buffer,
        recording ==> delivered_all(recording, buffer, batches) == buffer + flattened(batches),
    decreases batches.len(),
{
    if batches.len() > 0 {
        lemma_deliveries(recording, buffer, batches.drop_last());
        if recording {
            assert(delivered_all(recording, buffer, batches) =~= buffer + flattened(batches));
        }
    } else {
        assert(buffer + flattened(batches) =~= buffer);
    }
}

/// The recording buffer is empty at the start of every note: wherever
/// the plan switches recording on, the action before it cleared the buffer
/// and recording was off, so that whatever the stream delivered in between
/// left the buffer empty.
pub proof fn lemma_buffer_empty_at_note_start(
    sweep: Sweep,
    cfg: SamplingConfig,
    i: int,
    batches: Seq<Seq<u32>>,
)
    requires
        sweep.valid(),
        0 <= i < sweep.plan_len(),
        sweep.plan(cfg)[i] == Action::StartRecording,
    ensures
        i >= 1,
        sweep.plan(cfg)[i - 1] == Action::ClearBuffer,
        delivered_all(
            rig_after(sweep.plan(cfg).take(i)).recording,
            Seq::<u32>::empty(),
            batches,
        ).len() == 0,
{
    lemma_cleared_before_recording(sweep, cfg, i);
    lemma_deliveries(false, Seq::<u32>::empty(), batches);
}

impl CaptureTap {
    /// A tap with recording off and an empty buffer.
    pub fn new() -> (t: CaptureTap)
        ensures
            !t.recording_active,
            t.buffer@.len() == 0,
    {
        CaptureTap { recording_active: false, buffer: Vec::new() }
    }

    /// Empties the buffer.
    pub fn clear(&mut self)
        ensures
            final(self).buffer@.len() == 0,
            final(self).recording_active == old(self).recording_active,
    {
        self.buffer.clear();
    }

    /// Switches recording on or off.
    pub fn set_recording(&mut self, on: bool)
        ensures
            final(self).recording_active == on,
            final(self).buffer@ == old(self).buffer@,
    {
        self.recording_active = on;
    }

    /// The callback's part: appends the frames while recording is on and
    /// drops them while it is off.
    pub fn on_buffer(&mut self, frames: &[u32])
        ensures
            final(self).recording_active == old(self).recording_active,
            final(self).buffer@ == delivered(
                old(self).recording_active,
                old(self).buffer@,
                frames@,
            ),
    {
        if self.recording_active {
            self.buffer.extend_from_slice(frames);
        }
    }

    /// Moves the frames out and leaves an empty buffer behind.
    pub fn snapshot(&mut self) -> (frames: Vec<u32>)
        ensures
            frames@ == old(self).buffer@,
            final(self).buffer@.len() == 0,
            final(self).recording_active == old(self).recording_active,
    {
        let mut frames: Vec<u32> = Vec::new();
        std::mem::swap(&mut frames, &mut self.buffer);
        frames
    }
}


/// Counts the errors that the stream reports through its error hook. The
/// stream goes on after each of them, until they are more than are
/// tolerated.
pub struct UnderrunCounter {
    pub reports: u32,
    pub tolerated: u32,
}

impl UnderrunCounter {
    /// A counter that tolerates the given number of reports.
    pub fn new(tolerated: u32) -> (c: UnderrunCounter)
        ensures
            c.reports == 0,
            c.tolerated == tolerated,
    {
        UnderrunCounter { reports: 0, tolerated }
    }

    /// Takes note of one more report. The result is `CaptureUnderrun`
    /// once the reports are more than are tolerated, and nothing before.
    pub fn report(&mut self) -> (fault: Option<BatcherbirdError>)
        ensures
            final(self).tolerated == old(self).tolerated,
            final(self).reports == if old(self).reports < u32::MAX {
                old(self).reports + 1
            } else {
                u32::MAX as int
            },
            final(self).reports > final(self).tolerated ==> fault == Some(
                BatcherbirdError::CaptureUnderrun { reports: final(self).reports },
            ),
            final(self).reports <= final(self).tolerated ==> fault is None,
    {
        if self.reports < u32::MAX {
            self.reports = self.reports + 1;
        }
        if self.reports > self.tolerated {
            Some(BatcherbirdError::CaptureUnderrun { reports: self.reports })
        } else {
            None
        }
    }
}

} // verus!
