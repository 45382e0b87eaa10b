//! Names of MIDI notes.

use vstd::prelude::*;
use vstd::string::*;
use crate::text::{decimal, push_decimal};

verus! {

/// The name of a pitch class, 0 for C up to 11 for B, sharps written
/// with `#`.
pub open spec fn pitch_name(class: int) -> Seq<char> {
    if class == 0 {
        "C"@
    } else if class == 1 {
        "C#"@
    } else if class == 2 {
        "D"@
    } else if class == 3 {
        "D#"@
    } else if class == 4 {
        "E"@
    } else if class == 5 {
        "F"@
    } else if class == 6 {
        "F#"@
    } else if class == 7 {
        "G"@
    } else if class == 8 {
        "G#"@
    } else if class == 9 {
        "A"@
    } else if class == 10 {
        "A#"@
    } else {
        "B"@
    }
}

/// The octave a note is named with: note 60 lies in octave 4; the notes
/// below 24 all lie in octave 0.
pub open spec fn octave_of(note: u8) -> int {
    if note / 12 == 0 {
        0
    } else {
        note / 12 - 1
    }
}

/// The name of a note: its pitch class and its octave, as in `C4` for note
/// 60 and `F#2` for note 42.
pub open spec fn note_name(note: u8) -> Seq<char> {
    pitch_name((note % 12) as int) + decimal(octave_of(note) as nat)
}

/// The name of a note.
pub fn sample_note_name(note: u8) -> (name: String)
    ensures
        name@ == note_name(note),
{
    let class: &'static str = match note % 12 {
        0 => "C",
        1 => "C#",
        2 => "D",
        3 => "D#",
        4 => "E",
        5 => "F",
        6 => "F#",
        7 => "G",
        8 => "G#",
        9 => "A",
        10 => "A#",
        _ => "B",
    };
    let octave: u8 = if note / 12 == 0 {
        0
    } else {
        note / 12 - 1
    };
    let mut name = String::from_str(class);
    push_decimal(&mut name, octave as u64);
    name
}

} // verus!
