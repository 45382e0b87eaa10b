//! The MIDI messages of the pipeline and the order they are sent in.

use vstd::prelude::*;
use vstd::string::*;
use crate::error::BatcherbirdError;
use crate::notes::{note_name, sample_note_name};
use crate::text::{
    contains_text, decimal, first_containing, hex_byte, is_first_containing, push_decimal,
    push_hex_byte, push_zero_padded, zero_padded,
};

verus! {

/// A three-byte channel message.
#[derive(Debug, Clone, Copy, PartialEq, Eq, Structural)]
pub struct MidiMessage {
    pub status: u8,
    pub data1: u8,
    pub data2: u8,
}

/// One step of a sequence.
#[derive(Debug, Clone, Copy, PartialEq, Eq, Structural)]
pub enum MidiStep {
    /// A message to write; when the write fails, the sequence ends with
    /// the failure.
    Send(MidiMessage),
    /// A message to write; when the write fails, the sequence goes on.
    Attempt(MidiMessage),
    /// A wait in milliseconds.
    Pause(u64),
}

/// Controller number of All Sound Off.
pub const ALL_SOUND_OFF: u8 = 120;

/// Controller number of Reset All Controllers.
pub const RESET_ALL_CONTROLLERS: u8 = 121;

/// Controller number of All Notes Off.
pub const ALL_NOTES_OFF: u8 = 123;

/// Note-On for a channel taken modulo 16, note and velocity modulo 128.
pub open spec fn note_on(channel: u8, note: u8, velocity: u8) -> MidiMessage {
    MidiMessage {
        status: (0x90 + channel % 16) as u8,
        data1: note % 128,
        data2: velocity % 128,
    }
}

/// Note-Off for a channel taken modulo 16, note and velocity modulo 128.
pub open spec fn note_off(channel: u8, note: u8, velocity: u8) -> MidiMessage {
    MidiMessage {
        status: (0x80 + channel % 16) as u8,
        data1: note % 128,
        data2: velocity % 128,
    }
}

/// Control Change with value 0 for a channel taken modulo 16.
pub open spec fn control(channel: u8, controller: u8) -> MidiMessage {
    MidiMessage { status: (0xB0 + channel % 16) as u8, data1: controller, data2: 0 }
}

/// The messages of a sequence, in order, without the waits.
pub open spec fn sends(steps: Seq<MidiStep>) -> Seq<MidiMessage>
    decreases steps.len(),
{
    if steps.len() == 0 {
        Seq::empty()
    } else {
        match steps.last() {
            MidiStep::Send(m) => sends(steps.drop_last()).push(m),
            MidiStep::Attempt(m) => sends(steps.drop_last()).push(m),
            MidiStep::Pause(_) => sends(steps.drop_last()),
        }
    }
}

/// Message `i` of the panic, `0 <= i < 2112`: All Notes Off and All Sound
/// Off on each channel; Note-Off for each note of each channel; Reset All
/// Controllers on each channel; All Notes Off on each channel again.
pub open spec fn panic_message(i: int) -> MidiMessage {
    if i < 32 {
        if i % 2 == 0 {
            control((i / 2) as u8, ALL_NOTES_OFF)
        } else {
            control((i / 2) as u8, ALL_SOUND_OFF)
        }
    } else if i < 2080 {
        note_off(((i - 32) / 128) as u8, ((i - 32) % 128) as u8, 0)
    } else if i < 2096 {
        control((i - 2080) as u8, RESET_ALL_CONTROLLERS)
    } else {
        control((i - 2096) as u8, ALL_NOTES_OFF)
    }
}

/// The 2112 messages of the panic, in order.
pub open spec fn panic_messages() -> Seq<MidiMessage> {
    Seq::new(2112, |i: int| panic_message(i))
}

/// Step `i` of the panic, `0 <= i < 2178`: the messages of
/// `panic_message`, each written whatever became of those before it, with
/// a wait of 10 ms after the first 32, of 1 ms after every 32 Note-Offs, and
/// of 5 ms before the last 16.
pub open spec fn panic_step(i: int) -> MidiStep {
    if i < 32 {
        MidiStep::Attempt(panic_message(i))
    } else if i == 32 {
        MidiStep::Pause(10)
    } else if i < 2145 {
        let channel = (i - 33) / 132;
        let q = (i - 33) % 132;
        if q % 33 == 32 {
            MidiStep::Pause(1)
        } else {
            MidiStep::Attempt(note_off(channel as u8, (32 * (q / 33) + q % 33) as u8, 0))
        }
    } else if i < 2161 {
        MidiStep::Attempt(control((i - 2145) as u8, RESET_ALL_CONTROLLERS))
    } else if i == 2161 {
        MidiStep::Pause(5)
    } else {
        MidiStep::Attempt(control((i - 2162) as u8, ALL_NOTES_OFF))
    }
}

/// The steps of the panic, in order.
pub open spec fn panic_steps() -> Seq<MidiStep> {
    Seq::new(2178, |i: int| panic_step(i))
}

/// The steps of the panic on one channel: All Notes Off, then Reset All
/// Controllers.
pub open spec fn channel_panic_steps(channel: u8) -> Seq<MidiStep> {
    seq![
        MidiStep::Send(control(channel, ALL_NOTES_OFF)),
        MidiStep::Send(control(channel, RESET_ALL_CONTROLLERS)),
    ]
}

/// Appends a message that is written whatever became of those before it.
fn push_attempt(steps: &mut Vec<MidiStep>, m: MidiMessage)
    ensures
        final(steps)@ == old(steps)@.push(MidiStep::Attempt(m)),
        sends(final(steps)@) == sends(old(steps)@).push(m),
{
    steps.push(MidiStep::Attempt(m));
    assert(steps@.drop_last() =~= old(steps)@);
}

/// Appends a wait.
fn push_pause(steps: &mut Vec<MidiStep>, ms: u64)
    ensures
        final(steps)@ == old(steps)@.push(MidiStep::Pause(ms)),
        sends(final(steps)@) == sends(old(steps)@),
{
    steps.push(MidiStep::Pause(ms));
    assert(steps@.drop_last() =~= old(steps)@);
}

/// The ports that were enumerated last, by name, and the messages that
/// go to them. Enumerating and opening ports is left to the caller.
pub struct MidiManager {
    pub input_ports: Vec<String>,
    pub output_ports: Vec<String>,
}

impl MidiManager {
    /// A manager that knows no port yet.
    pub fn new() -> (m: MidiManager)
        ensures
            m.input_ports@.len() == 0,
            m.output_ports@.len() == 0,
    {
        MidiManager { input_ports: Vec::new(), output_ports: Vec::new() }
    }

    /// The Note-On message.
    pub fn send_note_on(channel: u8, note: u8, velocity: u8) -> (m: MidiMessage)
        ensures
            m == note_on(channel, note, velocity),
    {
        assert(0x90u8 | (channel & 0x0F) == (0x90 + channel % 16) as u8) by (bit_vector);
        assert(note & 0x7F == note % 128) by (bit_vector);
        assert(velocity & 0x7F == velocity % 128) by (bit_vector);
        MidiMessage { status: 0x90 | (channel & 0x0F), data1: note & 0x7F, data2: velocity & 0x7F }
    }

    /// The Note-Off message.
    pub fn send_note_off(channel: u8, note: u8, velocity: u8) -> (m: MidiMessage)
        ensures
            m == note_off(channel, note, velocity),
    {
        assert(0x80u8 | (channel & 0x0F) == (0x80 + channel % 16) as u8) by (bit_vector);
        assert(note & 0x7F == note % 128) by (bit_vector);
        assert(velocity & 0x7F == velocity % 128) by (bit_vector);
        MidiMessage { status: 0x80 | (channel & 0x0F), data1: note & 0x7F, data2: velocity & 0x7F }
    }

    /// A Control Change message with value 0.
    pub fn control_change(channel: u8, controller: u8) -> (m: MidiMessage)
        ensures
            m == control(channel, controller),
    {
        assert(0xB0u8 | (channel & 0x0F) == (0xB0 + channel % 16) as u8) by (bit_vector);
        MidiMessage { status: 0xB0 | (channel & 0x0F), data1: controller, data2: 0 }
    }

    /// A note of the given length: Note-On, a wait, Note-Off.
    pub fn send_test_note(channel: u8, note: u8, velocity: u8, duration_ms: u64) -> (steps: Vec<
        MidiStep,
    >)
        ensures
            steps@ == seq![
                MidiStep::Send(note_on(channel, note, velocity)),
                MidiStep::Pause(duration_ms),
                MidiStep::Send(note_off(channel, note, velocity)),
            ],
    {
        let mut steps: Vec<MidiStep> = Vec::new();
        steps.push(MidiStep::Send(MidiManager::send_note_on(channel, note, velocity)));
        steps.push(MidiStep::Pause(duration_ms));
        steps.push(MidiStep::Send(MidiManager::send_note_off(channel, note, velocity)));
        assert(steps@ =~= seq![
            MidiStep::Send(note_on(channel, note, velocity)),
            MidiStep::Pause(duration_ms),
            MidiStep::Send(note_off(channel, note, velocity)),
        ]);
        steps
    }

    /// The panic on one channel, sent before each note. A write that
    /// fails ends it.
    pub fn send_channel_panic(channel: u8) -> (steps: Vec<MidiStep>)
        ensures
            steps@ == channel_panic_steps(channel),
    {
        let mut steps: Vec<MidiStep> = Vec::new();
        steps.push(MidiStep::Send(MidiManager::control_change(channel, ALL_NOTES_OFF)));
        steps.push(MidiStep::Send(MidiManager::control_change(channel, RESET_ALL_CONTROLLERS)));
        assert(steps@ =~= channel_panic_steps(channel));
        steps
    }
}


impl MidiManager {
    /// The panic: every possibly sounding note on every channel is
    /// silenced three times over, since instruments differ in what they
    /// honour. A write that fails does not end the sweep.
    ///
    /// The messages are, in this order, All Notes Off and All Sound Off on
    /// each of the 16 channels, Note-Off for each of the 128 notes of each
    /// channel, Reset All Controllers on each channel, and All Notes Off on
    /// each channel once more: 2112 in all.
    pub fn send_midi_panic() -> (steps: Vec<MidiStep>)
        ensures
            steps@ == panic_steps(),
            sends(steps@) == panic_messages(),
            sends(steps@).len() == 2112,
    {
        let mut steps: Vec<MidiStep> = Vec::new();
        assert(sends(steps@) =~= panic_messages().take(0));
        let mut channel: u8 = 0;
        while channel < 16
            invariant
                channel <= 16,
                steps@.len() == 2 * channel,
                forall|i: int| 0 <= i < steps@.len() ==> steps@[i] == panic_step(i),
                sends(steps@) == panic_messages().take(2 * channel),
            decreases 16 - channel,
        {
            push_attempt(&mut steps, MidiManager::control_change(channel, ALL_NOTES_OFF));
            push_attempt(&mut steps, MidiManager::control_change(channel, ALL_SOUND_OFF));
            assert(sends(steps@) =~= panic_messages().take(2 * channel + 2));
            channel = channel + 1;
        }
        push_pause(&mut steps, 10);
        channel = 0;
        while channel < 16
            invariant
                channel <= 16,
                steps@.len() == 33 + 132 * channel,
                forall|i: int| 0 <= i < steps@.len() ==> steps@[i] == panic_step(i),
                sends(steps@) == panic_messages().take(32 + 128 * channel),
            decreases 16 - channel,
        {
            let mut note: u8 = 0;
            while note < 128
                invariant
                    channel < 16,
                    note <= 128,
                    steps@.len() == 33 + 132 * channel + note + note / 32,
                    forall|i: int| 0 <= i < steps@.len() ==> steps@[i] == panic_step(i),
                    sends(steps@) == panic_messages().take(32 + 128 * channel + note),
                decreases 128 - note,
            {
                let ghost at = steps@.len() as int;
                assert((at - 33) / 132 == channel as int);
                assert((at - 33) % 132 == note + note / 32);
                assert((note + note / 32) / 33 == note / 32);
                assert((note + note / 32) % 33 == note % 32);
                push_attempt(&mut steps, MidiManager::send_note_off(channel, note, 0));
                assert(steps@[at] == panic_step(at));
                assert(panic_message(32 + 128 * channel + note) == note_off(channel, note, 0)) by {
                    assert((128 * channel + note) / 128 == channel as int);
                    assert((128 * channel + note) % 128 == note as int);
                }
                assert(sends(steps@) =~= panic_messages().take(32 + 128 * channel + note + 1));
                if note % 32 == 31 {
                    assert((at + 1 - 33) / 132 == channel as int);
                    assert((at + 1 - 33) % 132 == note + 1 + note / 32);
                    assert((note + 1 + note / 32) % 33 == 32);
                    push_pause(&mut steps, 1);
                }
                note = note + 1;
            }
            channel = channel + 1;
        }
        channel = 0;
        while channel < 16
            invariant
                channel <= 16,
                steps@.len() == 2145 + channel,
                forall|i: int| 0 <= i < steps@.len() ==> steps@[i] == panic_step(i),
                sends(steps@) == panic_messages().take(2080 + channel),
            decreases 16 - channel,
        {
            push_attempt(&mut steps, MidiManager::control_change(channel, RESET_ALL_CONTROLLERS));
            assert(sends(steps@) =~= panic_messages().take(2080 + channel + 1));
            channel = channel + 1;
        }
        push_pause(&mut steps, 5);
        channel = 0;
        while channel < 16
            invariant
                channel <= 16,
                steps@.len() == 2162 + channel,
                forall|i: int| 0 <= i < steps@.len() ==> steps@[i] == panic_step(i),
                sends(steps@) == panic_messages().take(2096 + channel),
            decreases 16 - channel,
        {
            push_attempt(&mut steps, MidiManager::control_change(channel, ALL_NOTES_OFF));
            assert(sends(steps@) =~= panic_messages().take(2096 + channel + 1));
            channel = channel + 1;
        }
        assert(steps@ =~= panic_steps());
        assert(panic_messages().take(2112) =~= panic_messages());
        steps
    }
}


/// Some port has a name that contains the hint.
pub open spec fn contains_hint(ports: Seq<String>, hint: Seq<char>) -> bool {
    exists|k: int| 0 <= k < ports.len() && contains_text(#[trigger] ports[k]@, hint)
}

/// The name a connection to a port is opened under: a prefix and the name
/// of the port.
pub open spec fn connection_name(prefix: Seq<char>, port: Seq<char>) -> Seq<char> {
    prefix + port
}

/// The name of the connection to the port at `index`, or `PortOutOfRange`.
fn connection_to(ports: &Vec<String>, index: usize, prefix: &str) -> (r: Result<
    String,
    BatcherbirdError,
>)
    ensures
        index >= ports@.len() ==> r == Err::<String, BatcherbirdError>(
            (BatcherbirdError::PortOutOfRange { index, count: ports@.len() as usize }),
        ),
        index < ports@.len() ==> (r matches Ok(name) && name@ == connection_name(
            prefix@,
            ports@[index as int]@,
        )),
{
    if index >= ports.len() {
        return Err(BatcherbirdError::PortOutOfRange { index, count: ports.len() });
    }
    let mut name = String::from_str(prefix);
    name.append(ports[index].as_str());
    Ok(name)
}

impl MidiManager {
    /// Takes note of the input ports that were enumerated.
    pub fn list_input_devices(&mut self, names: Vec<String>)
        ensures
            final(self).input_ports == names,
            final(self).output_ports == old(self).output_ports,
    {
        self.input_ports = names;
    }

    /// Takes note of the output ports that were enumerated.
    pub fn list_output_devices(&mut self, names: Vec<String>)
        ensures
            final(self).output_ports == names,
            final(self).input_ports == old(self).input_ports,
    {
        self.output_ports = names;
    }

    /// The output port to use: the first whose name contains the hint, or
    /// the first of all when none does.
    pub fn preferred_output(&self, hint: &str) -> (index: usize)
        ensures
            contains_hint(self.output_ports@, hint@) ==> is_first_containing(
                self.output_ports@,
                hint@,
                Some(index),
            ),
            !contains_hint(self.output_ports@, hint@) ==> index == 0,
    {
        match first_containing(&self.output_ports, hint) {
            Some(i) => i,
            None => 0,
        }
    }

    /// The name under which the connection to the output port at
    /// `device_index` is opened; `PortOutOfRange` when no such port was
    /// enumerated.
    pub fn connect_output(&self, device_index: usize) -> (r: Result<String, BatcherbirdError>)
        ensures
            device_index >= self.output_ports@.len() ==> r == Err::<String, BatcherbirdError>(
                (BatcherbirdError::PortOutOfRange {
                    index: device_index,
                    count: self.output_ports@.len() as usize,
                }),
            ),
            device_index < self.output_ports@.len() ==> (r matches Ok(name) && name@
                == connection_name("batcherbird-out-"@, self.output_ports@[device_index as int]@)),
    {
        connection_to(&self.output_ports, device_index, "batcherbird-out-")
    }

    /// The name under which the connection to the input port at
    /// `device_index` is opened; `PortOutOfRange` when no such port was
    /// enumerated.
    pub fn connect_input(&self, device_index: usize) -> (r: Result<String, BatcherbirdError>)
        ensures
            device_index >= self.input_ports@.len() ==> r == Err::<String, BatcherbirdError>(
                (BatcherbirdError::PortOutOfRange {
                    index: device_index,
                    count: self.input_ports@.len() as usize,
                }),
            ),
            device_index < self.input_ports@.len() ==> (r matches Ok(name) && name@
                == connection_name("batcherbird-in-"@, self.input_ports@[device_index as int]@)),
    {
        connection_to(&self.input_ports, device_index, "batcherbird-in-")
    }
}

/// The time of day of a timestamp in milliseconds: hours, minutes and
/// seconds in two digits each, milliseconds in three.
pub open spec fn clock(ms: u64) -> Seq<char> {
    zero_padded(((ms / 3600000) % 24) as nat, 2) + ":"@ + zero_padded(((ms / 60000) % 60) as nat, 2)
        + ":"@ + zero_padded(((ms / 1000) % 60) as nat, 2) + "."@ + zero_padded(
        (ms % 1000) as nat,
        3,
    )
}

/// The bytes below `upto` in hexadecimal, a space between two bytes.
pub open spec fn hex_bytes(message: Seq<u8>, upto: int) -> Seq<char>
    decreases upto,
{
    if upto <= 0 {
        Seq::empty()
    } else if upto == 1 {
        hex_byte(message[0])
    } else {
        hex_bytes(message, upto - 1) + " "@ + hex_byte(message[upto - 1])
    }
}

/// What a received message is shown as, after the time: a Note-On with a
/// velocity above zero as `Note On`; a Note-Off, or a Note-On with velocity
/// zero, as `Note Off`; Control Change and Program Change by their numbers;
/// anything else as its bytes. Channels count from 1.
pub open spec fn message_words(message: Seq<u8>) -> Seq<char> {
    let kind = message[0] as int / 16;
    let channel = decimal((message[0] % 16 + 1) as nat);
    if kind == 9 && message.len() >= 3 && message[2] > 0 {
        "Note On  Ch:"@ + channel + " Note:"@ + decimal(message[1] as nat) + "("@ + note_name(
            message[1],
        ) + ")"@ + " Vel:"@ + decimal(message[2] as nat)
    } else if (kind == 8 || kind == 9) && message.len() >= 3 {
        "Note Off Ch:"@ + channel + " Note:"@ + decimal(message[1] as nat) + "("@ + note_name(
            message[1],
        ) + ")"@ + " Vel:"@ + decimal(message[2] as nat)
    } else if kind == 11 && message.len() >= 3 {
        "CC       Ch:"@ + channel + " CC:"@ + decimal(message[1] as nat) + " Val:"@ + decimal(
            message[2] as nat,
        )
    } else if kind == 12 && message.len() >= 2 {
        "Program  Ch:"@ + channel + " Prog:"@ + decimal(message[1] as nat)
    } else {
        "Raw      "@ + hex_bytes(message, message.len() as int)
    }
}

/// The line a received message is shown as: the time in brackets and the
/// words of `message_words`.
pub open spec fn message_line(timestamp_ms: u64, message: Seq<u8>) -> Seq<char> {
    "["@ + clock(timestamp_ms) + "] "@ + message_words(message)
}

/// Appends the time of day of a timestamp.
fn push_clock(out: &mut String, ms: u64)
    ensures
        final(out)@ == old(out)@ + clock(ms),
{
    push_zero_padded(out, (ms / 3600000) % 24, 2);
    out.append(":");
    push_zero_padded(out, (ms / 60000) % 60, 2);
    out.append(":");
    push_zero_padded(out, (ms / 1000) % 60, 2);
    out.append(".");
    push_zero_padded(out, ms % 1000, 3);
    assert(out@ =~= old(out)@ + clock(ms));
}

/// Appends a label, a channel and up to two numbers with their labels;
/// the first number with the name of the note it stands for, where asked.
fn push_numbers(
    out: &mut String,
    label: &str,
    channel: u8,
    first_label: &str,
    first: u8,
    named: bool,
    second: Option<(&str, u8)>,
)
    ensures
        final(out)@ == old(out)@ + label@ + decimal(channel as nat) + first_label@ + decimal(
            first as nat,
        ) + (if named {
            "("@ + note_name(first) + ")"@
        } else {
            Seq::<char>::empty()
        }) + (match second {
            Some((l, v)) => l@ + decimal(v as nat),
            None => Seq::<char>::empty(),
        }),
{
    out.append(label);
    push_decimal(out, channel as u64);
    out.append(first_label);
    push_decimal(out, first as u64);
    let ghost a = out@;
    if named {
        out.append("(");
        out.append(sample_note_name(first).as_str());
        out.append(")");
        assert(out@ =~= a + ("("@ + note_name(first) + ")"@));
    } else {
        assert(out@ =~= a + Seq::<char>::empty());
    }
    let ghost b = out@;
    match second {
        Some((l, v)) => {
            out.append(l);
            push_decimal(out, v as u64);
            assert(out@ =~= b + (l@ + decimal(v as nat)));
        },
        None => {
            assert(out@ =~= b + Seq::<char>::empty());
        },
    }
}

/// Appends the bytes of a message in hexadecimal.
fn push_hex_bytes(out: &mut String, message: &[u8])
    requires
        message@.len() >= 1,
    ensures
        final(out)@ == old(out)@ + hex_bytes(message@, message@.len() as int),
{
    push_hex_byte(out, message[0]);
    let mut i: usize = 1;
    while i < message.len()
        invariant
            1 <= i <= message@.len(),
            out@ == old(out)@ + hex_bytes(message@, i as int),
        decreases message@.len() - i,
    {
        out.append(" ");
        push_hex_byte(out, message[i]);
        i = i + 1;
        assert(out@ =~= old(out)@ + hex_bytes(message@, i as int));
    }
}

impl MidiManager {
    /// The name of a note.
    pub fn note_to_name(note: u8) -> (name: String)
        ensures
            name@ == note_name(note),
    {
        sample_note_name(note)
    }

    /// The line to show for a message received at `timestamp_ms`; none
    /// for an empty message.
    pub fn print_midi_message(timestamp_ms: u64, message: &[u8]) -> (line: Option<String>)
        ensures
            message@.len() == 0 ==> line is None,
            message@.len() > 0 ==> (line matches Some(l) && l@ == message_line(
                timestamp_ms,
                message@,
            )),
    {
        if message.len() == 0 {
            return None;
        }
        let mut line = String::from_str("[");
        push_clock(&mut line, timestamp_ms);
        line.append("] ");
        push_message_words(&mut line, message);
        assert(line@ =~= message_line(timestamp_ms, message@));
        Some(line)
    }
}

/// Appends the words a message is shown as.
fn push_message_words(out: &mut String, message: &[u8])
    requires
        message@.len() >= 1,
    ensures
        final(out)@ == old(out)@ + message_words(message@),
{
    let status: u8 = message[0];
    let kind: u8 = status / 16;
    let channel: u8 = status % 16 + 1;
    let ghost words = message_words(message@);
    if kind == 9 && message.len() >= 3 && message[2] > 0 {
        push_numbers(
            out,
            "Note On  Ch:",
            channel,
            " Note:",
            message[1],
            true,
            Some((" Vel:", message[2])),
        );
        assert(words =~= "Note On  Ch:"@ + decimal(channel as nat) + " Note:"@ + decimal(
            message@[1] as nat,
        ) + ("("@ + note_name(message@[1]) + ")"@) + (" Vel:"@ + decimal(message@[2] as nat)));
    } else if (kind == 8 || kind == 9) && message.len() >= 3 {
        push_numbers(
            out,
            "Note Off Ch:",
            channel,
            " Note:",
            message[1],
            true,
            Some((" Vel:", message[2])),
        );
        assert(words =~= "Note Off Ch:"@ + decimal(channel as nat) + " Note:"@ + decimal(
            message@[1] as nat,
        ) + ("("@ + note_name(message@[1]) + ")"@) + (" Vel:"@ + decimal(message@[2] as nat)));
    } else if kind == 11 && message.len() >= 3 {
        push_numbers(
            out,
            "CC       Ch:",
            channel,
            " CC:",
            message[1],
            false,
            Some((" Val:", message[2])),
        );
        assert(words =~= "CC       Ch:"@ + decimal(channel as nat) + " CC:"@ + decimal(
            message@[1] as nat,
        ) + Seq::<char>::empty() + (" Val:"@ + decimal(message@[2] as nat)));
    } else if kind == 12 && message.len() >= 2 {
        push_numbers(out, "Program  Ch:", channel, " Prog:", message[1], false, None);
        assert(words =~= "Program  Ch:"@ + decimal(channel as nat) + " Prog:"@ + decimal(
            message@[1] as nat,
        ) + Seq::<char>::empty() + Seq::<char>::empty());
    } else {
        out.append("Raw      ");
        push_hex_bytes(out, message);
        assert(out@ =~= old(out)@ + words);
    }
}

} // verus!
