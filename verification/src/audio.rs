//! Which input device a session records from.

use vstd::prelude::*;
use crate::text::{first_containing, is_first_containing};

verus! {

/// Chooses among the input devices that were enumerated.
pub struct AudioManager {
    /// Part of the name of the device to prefer.
    pub device_hint: String,
}

impl AudioManager {
    pub fn new(device_hint: String) -> (m: AudioManager)
        ensures
            m.device_hint == device_hint,
    {
        AudioManager { device_hint }
    }

    /// The input device to record from: the first whose name contains the
    /// hint. With `None` the host's default input is used.
    pub fn get_default_input_device(&self, names: &Vec<String>) -> (r: Option<usize>)
        ensures
            is_first_containing(names@, self.device_hint@, r),
    {
        first_containing(names, self.device_hint.as_str())
    }

    /// Samples that a test recording of `duration_secs` seconds is
    /// expected to hold: seconds times sample rate times channels.
    pub fn record_test_audio(duration_secs: u64, sample_rate: u32, channels: u16) -> (expected:
        u128)
        ensures
            expected == duration_secs * sample_rate * channels,
    {
        assert(duration_secs * sample_rate * channels <= 0xFFFF_FFFF_FFFF_FFFF * 0xFFFF_FFFF
            * 0xFFFF) by (nonlinear_arith)
            requires
                0 <= duration_secs <= 0xFFFF_FFFF_FFFF_FFFF,
                0 <= sample_rate <= 0xFFFF_FFFF,
                0 <= channels <= 0xFFFF,
        ;
        assert(duration_secs * sample_rate <= 0xFFFF_FFFF_FFFF_FFFF * 0xFFFF_FFFF)
            by (nonlinear_arith)
            requires
                0 <= duration_secs <= 0xFFFF_FFFF_FFFF_FFFF,
                0 <= sample_rate <= 0xFFFF_FFFF,
        ;
        duration_secs as u128 * sample_rate as u128 * channels as u128
    }
}

} // verus!
