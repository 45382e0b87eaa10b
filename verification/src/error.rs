//! The failures that the pipeline reports.

use vstd::prelude::*;
use vstd::string::*;
use crate::text::{decimal, push_decimal};

verus! {

/// A failure of the sampling pipeline.
///
/// Variants that carry a `String` hold the words of the driver or encoder
/// that refused; the others carry the values that were rejected.
#[derive(Debug, Clone, PartialEq, Eq)]
pub enum BatcherbirdError {
    /// A port index beyond the ports that were enumerated.
    PortOutOfRange { index: usize, count: usize },
    /// Enumerating or opening a port or device failed.
    Device(String),
    /// The input device delivers a sample format other than the three
    /// supported ones.
    UnsupportedFormat(String),
    /// A Note-On or Note-Off could not be written.
    MidiWrite(String),
    /// The capture callback reported errors past the tolerated count.
    CaptureUnderrun { reports: u32 },
    /// A MIDI channel outside 1..=16.
    InvalidChannel { channel: u8 },
    /// A note range that is not `start <= end <= 127`.
    InvalidRange { start: u8, end: u8 },
    /// A note above 127.
    InvalidNote { note: u8 },
    /// A velocity outside 1..=127.
    InvalidVelocity { velocity: u8 },
    /// The analysis window holds no sample at this sample rate.
    WindowTooSmall,
    /// Values measured outside do not come in the number of the things they
    /// were measured on: levels and analysis windows, scores and candidates.
    TraceMismatch { expected: usize, found: usize },
    /// A segment without audio was handed to the encoder.
    EmptyAudio,
    /// The audio encoding names an instrument file, not a sample file.
    NotASampleEncoding,
    /// The stream layout cannot be written as a WAVE file.
    UnsupportedLayout,
    /// A sample value does not fit the bit depth of the encoding.
    SampleTooWide { index: usize },
    /// The encoder refused the data.
    Encode(String),
    /// Writing or finalizing a file failed.
    Io(String),
    /// The configuration file is malformed.
    ConfigParse(String),
}


impl BatcherbirdError {
    /// The failure in words.
    pub open spec fn words(self) -> Seq<char> {
        match self {
            BatcherbirdError::PortOutOfRange { index, count } => "Device index "@ + decimal(
                index as nat,
            ) + " out of range ("@ + decimal(count as nat) + " found)"@,
            BatcherbirdError::Device(s) => "Device error: "@ + s@,
            BatcherbirdError::UnsupportedFormat(s) => "Unsupported sample format: "@ + s@,
            BatcherbirdError::MidiWrite(s) => "MIDI write error: "@ + s@,
            BatcherbirdError::CaptureUnderrun { reports } => "Capture underrun, reported "@
                + decimal(reports as nat) + " times"@,
            BatcherbirdError::InvalidChannel { channel } => "Invalid MIDI channel: "@ + decimal(
                channel as nat,
            ) + ". Must be 1-16."@,
            BatcherbirdError::InvalidRange { start, end } => "Invalid note range: "@ + decimal(
                start as nat,
            ) + "-"@ + decimal(end as nat) + ". Notes must be 0-127 and start <= end."@,
            BatcherbirdError::InvalidNote { note } => "Invalid note number: "@ + decimal(
                note as nat,
            ) + ". Must be 0-127."@,
            BatcherbirdError::InvalidVelocity { velocity } => "Invalid velocity: "@ + decimal(
                velocity as nat,
            ) + ". Must be 1-127."@,
            BatcherbirdError::WindowTooSmall => "Window size too small"@,
            BatcherbirdError::TraceMismatch { expected, found } => "Expected "@ + decimal(
                expected as nat,
            ) + " measurements, found "@ + decimal(found as nat),
            BatcherbirdError::EmptyAudio => "Cannot export empty audio data"@,
            BatcherbirdError::NotASampleEncoding => "Instrument formats are not sample encodings"@,
            BatcherbirdError::UnsupportedLayout => "Audio layout cannot be written as WAVE"@,
            BatcherbirdError::SampleTooWide { index } => "Sample "@ + decimal(index as nat)
                + " does not fit the bit depth"@,
            BatcherbirdError::Encode(s) => "Encode error: "@ + s@,
            BatcherbirdError::Io(s) => "Export error: "@ + s@,
            BatcherbirdError::ConfigParse(s) => "Configuration parse error: "@ + s@,
        }
    }

    /// The failure in words.
    pub fn message(&self) -> (s: String)
        ensures
            s@ == self.words(),
    {
        match self {
            BatcherbirdError::PortOutOfRange { index, count } => numbered(
                "Device index ",
                *index as u64,
                " out of range (",
                Some(*count as u64),
                " found)",
            ),
            BatcherbirdError::Device(s) => worded("Device error: ", s),
            BatcherbirdError::UnsupportedFormat(s) => worded("Unsupported sample format: ", s),
            BatcherbirdError::MidiWrite(s) => worded("MIDI write error: ", s),
            BatcherbirdError::CaptureUnderrun { reports } => numbered(
                "Capture underrun, reported ",
                *reports as u64,
                " times",
                None,
                "",
            ),
            BatcherbirdError::InvalidChannel { channel } => numbered(
                "Invalid MIDI channel: ",
                *channel as u64,
                ". Must be 1-16.",
                None,
                "",
            ),
            BatcherbirdError::InvalidRange { start, end } => numbered(
                "Invalid note range: ",
                *start as u64,
                "-",
                Some(*end as u64),
                ". Notes must be 0-127 and start <= end.",
            ),
            BatcherbirdError::InvalidNote { note } => numbered(
                "Invalid note number: ",
                *note as u64,
                ". Must be 0-127.",
                None,
                "",
            ),
            BatcherbirdError::InvalidVelocity { velocity } => numbered(
                "Invalid velocity: ",
                *velocity as u64,
                ". Must be 1-127.",
                None,
                "",
            ),
            BatcherbirdError::WindowTooSmall => String::from_str("Window size too small"),
            BatcherbirdError::TraceMismatch { expected, found } => {
                let mut s = numbered(
                    "Expected ",
                    *expected as u64,
                    " measurements, found ",
                    None,
                    "",
                );
                push_decimal(&mut s, *found as u64);
                s
            },
            BatcherbirdError::EmptyAudio => String::from_str("Cannot export empty audio data"),
            BatcherbirdError::NotASampleEncoding => String::from_str(
                "Instrument formats are not sample encodings",
            ),
            BatcherbirdError::UnsupportedLayout => String::from_str(
                "Audio layout cannot be written as WAVE",
            ),
            BatcherbirdError::SampleTooWide { index } => numbered(
                "Sample ",
                *index as u64,
                " does not fit the bit depth",
                None,
                "",
            ),
            BatcherbirdError::Encode(s) => worded("Encode error: ", s),
            BatcherbirdError::Io(s) => worded("Export error: ", s),
            BatcherbirdError::ConfigParse(s) => worded("Configuration parse error: ", s),
        }
    }
}

/// A label followed by words.
fn worded(label: &str, words: &String) -> (s: String)
    ensures
        s@ == label@ + words@,
{
    let mut s = String::from_str(label);
    s.append(words.as_str());
    s
}

/// A label, a number and what follows it; then, where given, a second
/// number and what follows that.
fn numbered(label: &str, first: u64, middle: &str, second: Option<u64>, end: &str) -> (s: String)
    ensures
        second matches Some(n) ==> s@ == label@ + decimal(first as nat) + middle@ + decimal(
            n as nat,
        ) + end@,
        second is None ==> s@ == label@ + decimal(first as nat) + middle@,
{
    let mut s = String::from_str(label);
    push_decimal(&mut s, first);
    s.append(middle);
    match second {
        Some(n) => {
            push_decimal(&mut s, n);
            s.append(end);
        },
        None => {},
    }
    s
}

} // verus!
