//! The settings that a session is started with.

use vstd::prelude::*;
use crate::error::BatcherbirdError;

verus! {

/// Where MIDI goes. `channel` counts from 1, as on the instrument's panel.
#[derive(Debug, Clone)]
pub struct MidiConfig {
    pub device_name: String,
    pub channel: u8,
    pub program_change_delay_ms: u32,
}

#[derive(Debug, Clone)]
pub struct AudioConfig {
    pub device_name: String,
    pub sample_rate: u32,
    pub bit_depth: u16,
    pub channels: u16,
}

#[derive(Debug, Clone)]
pub struct SamplingConfig {
    pub note_range: NoteRange,
    pub velocities: Vec<u8>,
    pub note_duration_ms: u32,
    pub release_time_ms: u32,
    pub pre_delay_ms: u32,
}

/// First and last note of a range, both included.
#[derive(Debug, Clone, Copy, PartialEq, Eq, Structural)]
pub struct NoteRange {
    pub start: u8,
    pub end: u8,
}

#[derive(Debug, Clone)]
pub struct Config {
    pub midi: MidiConfig,
    pub audio: AudioConfig,
    pub sampling: SamplingConfig,
}

impl NoteRange {
    /// `start <= end <= 127`.
    pub open spec fn valid(self) -> bool {
        self.start <= self.end <= 127
    }

    /// Number of notes in a valid range.
    pub open spec fn count(self) -> int {
        self.end - self.start + 1
    }

    /// The range, or `InvalidRange` when it is not `start <= end <= 127`.
    pub fn new(start: u8, end: u8) -> (r: Result<NoteRange, BatcherbirdError>)
        ensures
            (start <= end <= 127) ==> r == Ok::<NoteRange, BatcherbirdError>(
                (NoteRange { start, end }),
            ),
            !(start <= end <= 127) ==> r == Err::<NoteRange, BatcherbirdError>(
                (BatcherbirdError::InvalidRange { start, end }),
            ),
    {
        if start <= end && end <= 127 {
            Ok(NoteRange { start, end })
        } else {
            Err(BatcherbirdError::InvalidRange { start, end })
        }
    }
}

/// Whether every velocity of the list lies in 1..=127.
pub open spec fn velocities_valid(velocities: Seq<u8>) -> bool {
    forall|i: int| 0 <= i < velocities.len() ==> 1 <= #[trigger] velocities[i] <= 127
}

/// Index of the first velocity outside 1..=127, or the length.
pub open spec fn first_out_of_range(velocities: Seq<u8>) -> int
    decreases velocities.len(),
{
    if velocities.len() == 0 {
        0
    } else if !(1 <= velocities[0] <= 127) {
        0
    } else {
        1 + first_out_of_range(velocities.skip(1))
    }
}

/// `first_out_of_range` is where the valid prefix of the list ends.
pub proof fn lemma_first_out_of_range(velocities: Seq<u8>)
    ensures
        0 <= first_out_of_range(velocities) <= velocities.len(),
        velocities_valid(velocities.take(first_out_of_range(velocities))),
        first_out_of_range(velocities) < velocities.len() ==> !(1
            <= velocities[first_out_of_range(velocities)] <= 127),
        velocities_valid(velocities) <==> first_out_of_range(velocities) == velocities.len(),
    decreases velocities.len(),
{
    if velocities.len() > 0 && 1 <= velocities[0] <= 127 {
        let rest = velocities.skip(1);
        lemma_first_out_of_range(rest);
        let k = first_out_of_range(velocities);
        assert forall|i: int| 0 <= i < k implies 1 <= #[trigger] velocities.take(k)[i] <= 127 by {
            if i > 0 {
                assert(rest.take(k - 1)[i - 1] == velocities[i]);
            }
        }
        if k < velocities.len() {
            assert(rest[k - 1] == velocities[k]);
        }
        if velocities_valid(velocities) {
            assert forall|i: int| 0 <= i < rest.len() implies 1 <= #[trigger] rest[i] <= 127 by {
                assert(rest[i] == velocities[i + 1]);
            }
        }
        if k == velocities.len() {
            assert(velocities.take(k) =~= velocities);
        }
    } else if velocities.len() > 0 {
        assert(velocities.take(0) =~= Seq::<u8>::empty());
    } else {
        assert(velocities.take(0) =~= velocities);
    }
}

/// Index of the first velocity outside 1..=127, if there is one.
pub fn first_invalid_velocity(velocities: &Vec<u8>) -> (r: Option<usize>)
    ensures
        r is None <==> velocities_valid(velocities@),
        r matches Some(i) ==> i == first_out_of_range(velocities@) && i < velocities@.len() && !(1
            <= velocities@[i as int] <= 127),
{
    proof {
        lemma_first_out_of_range(velocities@);
        assert(velocities@.skip(0) =~= velocities@);
    }
    let mut i: usize = 0;
    while i < velocities.len()
        invariant
            i <= velocities@.len(),
            i + first_out_of_range(velocities@.skip(i as int)) == first_out_of_range(velocities@),
        decreases velocities@.len() - i,
    {
        let v: u8 = velocities[i];
        proof {
            let rest = velocities@.skip(i as int);
            assert(rest[0] == velocities@[i as int]);
            assert(rest.skip(1) =~= velocities@.skip(i + 1));
        }
        if v < 1 || v > 127 {
            return Some(i);
        }
        i = i + 1;
    }
    None
}

impl Config {
    /// The values a session falls back on: channel 1, 48 kHz stereo at 24
    /// bits, notes 36 to 84 at velocities 64, 96 and 127, a gate of two
    /// seconds, a release of one second and a pre-roll of 100 ms.
    pub open spec fn is_default(self) -> bool {
        &&& self.midi.device_name@ == Seq::<char>::empty()
        &&& self.midi.channel == 1
        &&& self.midi.program_change_delay_ms == 50
        &&& self.audio.device_name@ == Seq::<char>::empty()
        &&& self.audio.sample_rate == 48000
        &&& self.audio.bit_depth == 24
        &&& self.audio.channels == 2
        &&& self.sampling.note_range == (NoteRange { start: 36, end: 84 })
        &&& self.sampling.velocities@ == seq![64u8, 96u8, 127u8]
        &&& self.sampling.note_duration_ms == 2000
        &&& self.sampling.release_time_ms == 1000
        &&& self.sampling.pre_delay_ms == 100
    }

    /// What `validate` accepts: a channel in 1..=16, a note range with
    /// `start <= end <= 127`, and velocities in 1..=127.
    pub open spec fn valid(self) -> bool {
        &&& 1 <= self.midi.channel <= 16
        &&& self.sampling.note_range.valid()
        &&& velocities_valid(self.sampling.velocities@)
    }

    /// The channel as it goes on the wire, 0..=15, for a valid
    /// configuration.
    pub open spec fn wire_channel(self) -> int {
        self.midi.channel - 1
    }

    /// What `validate` refuses the configuration for, if it does: the
    /// channel first, then the note range, then the first velocity out of
    /// range.
    pub open spec fn fault(self) -> Option<BatcherbirdError> {
        if !(1 <= self.midi.channel <= 16) {
            Some(BatcherbirdError::InvalidChannel { channel: self.midi.channel })
        } else if !self.sampling.note_range.valid() {
            Some(
                BatcherbirdError::InvalidRange {
                    start: self.sampling.note_range.start,
                    end: self.sampling.note_range.end,
                },
            )
        } else if !velocities_valid(self.sampling.velocities@) {
            Some(
                BatcherbirdError::InvalidVelocity {
                    velocity: self.sampling.velocities@[first_out_of_range(
                        self.sampling.velocities@,
                    )],
                },
            )
        } else {
            None
        }
    }

    /// The timing of the sessions that run under a valid configuration:
    /// its durations, a post-roll of 100 ms, its channel counted from 0,
    /// and the first of its velocities, or 100 without any.
    pub open spec fn timing(self) -> crate::sampler::SamplingConfig {
        crate::sampler::SamplingConfig {
            note_duration_ms: self.sampling.note_duration_ms as u64,
            release_time_ms: self.sampling.release_time_ms as u64,
            pre_delay_ms: self.sampling.pre_delay_ms as u64,
            post_delay_ms: 100,
            midi_channel: self.wire_channel() as u8,
            velocity: if self.sampling.velocities@.len() > 0 {
                self.sampling.velocities@[0]
            } else {
                100
            },
        }
    }

    /// Checks the values before any device is touched, and gives the
    /// channel as it goes on the wire.
    pub fn validate(&self) -> (r: Result<u8, BatcherbirdError>)
        ensures
            self.valid() <==> r is Ok,
            r matches Ok(channel) ==> channel == self.wire_channel() && channel <= 15,
            self.fault() matches Some(e) ==> r == Err::<u8, BatcherbirdError>(e),
    {
        if self.midi.channel < 1 || self.midi.channel > 16 {
            return Err(BatcherbirdError::InvalidChannel { channel: self.midi.channel });
        }
        if !(self.sampling.note_range.start <= self.sampling.note_range.end
            && self.sampling.note_range.end <= 127) {
            return Err(
                BatcherbirdError::InvalidRange {
                    start: self.sampling.note_range.start,
                    end: self.sampling.note_range.end,
                },
            );
        }
        match first_invalid_velocity(&self.sampling.velocities) {
            Some(i) => Err(
                BatcherbirdError::InvalidVelocity { velocity: self.sampling.velocities[i] },
            ),
            None => Ok(self.midi.channel - 1),
        }
    }

    /// The timing of the sessions that run under this configuration, if
    /// it is valid.
    pub fn session_timing(&self) -> (r: Result<crate::sampler::SamplingConfig, BatcherbirdError>)
        ensures
            self.fault() matches Some(e) ==> r == Err::<crate::sampler::SamplingConfig, BatcherbirdError>(e),
            self.fault() is None ==> r == Ok::<crate::sampler::SamplingConfig, BatcherbirdError>(self.timing()),
    {
        match self.validate() {
            Ok(channel) => Ok(
                crate::sampler::SamplingConfig {
                    note_duration_ms: self.sampling.note_duration_ms as u64,
                    release_time_ms: self.sampling.release_time_ms as u64,
                    pre_delay_ms: self.sampling.pre_delay_ms as u64,
                    post_delay_ms: 100,
                    midi_channel: channel,
                    velocity: if self.sampling.velocities.len() > 0 {
                        self.sampling.velocities[0]
                    } else {
                        100
                    },
                },
            ),
            Err(e) => Err(e),
        }
    }
}

impl Default for Config {
    fn default() -> (c: Config)
        ensures
            c.is_default(),
            c.valid(),
    {
        let mut velocities: Vec<u8> = Vec::new();
        velocities.push(64);
        velocities.push(96);
        velocities.push(127);
        assert(velocities@ =~= seq![64u8, 96u8, 127u8]);
        Config {
            midi: MidiConfig {
                device_name: String::new(),
                channel: 1,
                program_change_delay_ms: 50,
            },
            audio: AudioConfig {
                device_name: String::new(),
                sample_rate: 48000,
                bit_depth: 24,
                channels: 2,
            },
            sampling: SamplingConfig {
                note_range: NoteRange { start: 36, end: 84 },
                velocities,
                note_duration_ms: 2000,
                release_time_ms: 1000,
                pre_delay_ms: 100,
            },
        }
    }
}

} // verus!
