//! Which devices are known and which of them are in use.

use vstd::prelude::*;
use crate::error::BatcherbirdError;
use crate::text::{decimal, push_decimal};
use vstd::string::*;

verus! {

#[derive(Debug, Clone, Copy, PartialEq, Eq, Structural)]
pub enum DeviceType {
    MidiOutput,
    AudioInput,
    AudioOutput,
}

#[derive(Debug, Clone)]
pub struct DeviceInfo {
    pub id: String,
    pub name: String,
    pub device_type: DeviceType,
    pub is_connected: bool,
}

/// The device in use for each role, if any.
#[derive(Debug, Clone)]
pub struct DeviceState {
    pub midi_output: Option<DeviceInfo>,
    pub audio_input: Option<DeviceInfo>,
    pub audio_output: Option<DeviceInfo>,
}

impl DeviceType {
    /// The word that identifiers of this kind of device start with.
    pub open spec fn id_prefix(self) -> Seq<char> {
        match self {
            DeviceType::MidiOutput => "midi_out_"@,
            DeviceType::AudioInput => "audio_in_"@,
            DeviceType::AudioOutput => "audio_out_"@,
        }
    }
}

/// The identifier of the device at `index` in its enumeration: the prefix
/// of its kind and the index in decimal.
pub open spec fn device_id(device_type: DeviceType, index: nat) -> Seq<char> {
    device_type.id_prefix() + decimal(index)
}

pub fn make_device_id(device_type: DeviceType, index: usize) -> (id: String)
    ensures
        id@ == device_id(device_type, index as nat),
{
    let mut id = match device_type {
        DeviceType::MidiOutput => String::from_str("midi_out_"),
        DeviceType::AudioInput => String::from_str("audio_in_"),
        DeviceType::AudioOutput => String::from_str("audio_out_"),
    };
    push_decimal(&mut id, index as u64);
    id
}


/// Whether the device in use for a role, if any, has this name.
pub open spec fn in_use(current: Option<DeviceInfo>, name: Seq<char>) -> bool {
    match current {
        Some(d) => d.name@ == name,
        None => false,
    }
}

/// The entry of the device at `index` of an enumeration.
pub open spec fn is_entry(
    info: DeviceInfo,
    device_type: DeviceType,
    index: int,
    name: Seq<char>,
    current: Option<DeviceInfo>,
) -> bool {
    &&& info.id@ == device_id(device_type, index as nat)
    &&& info.name@ == name
    &&& info.device_type == device_type
    &&& info.is_connected == in_use(current, name)
}

/// The entries of an enumeration of one kind of device: for each name its
/// identifier, and whether it is the device in use.
pub fn list_devices(names: &Vec<String>, device_type: DeviceType, current: &Option<DeviceInfo>)
    -> (out: Vec<DeviceInfo>)
    ensures
        out@.len() == names@.len(),
        forall|i: int|
            0 <= i < out@.len() ==> is_entry(
                #[trigger] out@[i],
                device_type,
                i,
                names@[i]@,
                *current,
            ),
{
    let mut out: Vec<DeviceInfo> = Vec::new();
    let mut i: usize = 0;
    while i < names.len()
        invariant
            i <= names@.len(),
            out@.len() == i,
            forall|k: int|
                0 <= k < out@.len() ==> is_entry(
                    #[trigger] out@[k],
                    device_type,
                    k,
                    names@[k]@,
                    *current,
                ),
        decreases names@.len() - i,
    {
        let name = names[i].clone();
        let connected: bool = match current {
            Some(d) => d.name == name,
            None => false,
        };
        out.push(
            DeviceInfo {
                id: make_device_id(device_type, i),
                name,
                device_type,
                is_connected: connected,
            },
        );
        i = i + 1;
    }
    out
}

/// The device in use is the one at `index` of an enumeration.
pub open spec fn is_selected(
    current: Option<DeviceInfo>,
    device_type: DeviceType,
    index: int,
    name: Seq<char>,
) -> bool {
    current matches Some(info) && info.id@ == device_id(device_type, index as nat) && info.name@
        == name && info.device_type == device_type && info.is_connected
}

/// The entry of the device at `index` as the device in use, or
/// `PortOutOfRange` when the enumeration has no such index.
pub fn select_device(names: &Vec<String>, device_type: DeviceType, index: usize) -> (r: Result<
    DeviceInfo,
    BatcherbirdError,
>)
    ensures
        index >= names@.len() ==> r == Err::<DeviceInfo, BatcherbirdError>(
            (BatcherbirdError::PortOutOfRange { index, count: names@.len() as usize }),
        ),
        index < names@.len() ==> (r matches Ok(info) && info.id@ == device_id(
            device_type,
            index as nat,
        ) && info.name@ == names@[index as int]@ && info.device_type == device_type
            && info.is_connected),
{
    if index >= names.len() {
        return Err(BatcherbirdError::PortOutOfRange { index, count: names.len() });
    }
    Ok(
        DeviceInfo {
            id: make_device_id(device_type, index),
            name: names[index].clone(),
            device_type,
            is_connected: true,
        },
    )
}

/// Keeps track of the device in use for each role. The ports and devices
/// themselves are enumerated and opened by the caller, who hands in their
/// names.
pub struct DeviceManager {
    pub current_state: DeviceState,
}

impl DeviceManager {
    /// A manager with no device in use.
    pub fn new() -> (m: DeviceManager)
        ensures
            m.current_state.midi_output is None,
            m.current_state.audio_input is None,
            m.current_state.audio_output is None,
    {
        DeviceManager {
            current_state: DeviceState { midi_output: None, audio_input: None, audio_output: None },
        }
    }

    /// The MIDI outputs with the given names, in their order.
    pub fn list_midi_output_devices(&self, names: &Vec<String>) -> (out: Vec<DeviceInfo>)
        ensures
            out@.len() == names@.len(),
            forall|i: int|
                0 <= i < out@.len() ==> is_entry(
                    #[trigger] out@[i],
                    DeviceType::MidiOutput,
                    i,
                    names@[i]@,
                    self.current_state.midi_output,
                ),
    {
        list_devices(names, DeviceType::MidiOutput, &self.current_state.midi_output)
    }

    /// The audio inputs with the given names, in their order.
    pub fn list_audio_input_devices(&self, names: &Vec<String>) -> (out: Vec<DeviceInfo>)
        ensures
            out@.len() == names@.len(),
            forall|i: int|
                0 <= i < out@.len() ==> is_entry(
                    #[trigger] out@[i],
                    DeviceType::AudioInput,
                    i,
                    names@[i]@,
                    self.current_state.audio_input,
                ),
    {
        list_devices(names, DeviceType::AudioInput, &self.current_state.audio_input)
    }

    /// The audio outputs with the given names, in their order.
    pub fn list_audio_output_devices(&self, names: &Vec<String>) -> (out: Vec<DeviceInfo>)
        ensures
            out@.len() == names@.len(),
            forall|i: int|
                0 <= i < out@.len() ==> is_entry(
                    #[trigger] out@[i],
                    DeviceType::AudioOutput,
                    i,
                    names@[i]@,
                    self.current_state.audio_output,
                ),
    {
        list_devices(names, DeviceType::AudioOutput, &self.current_state.audio_output)
    }

    /// Takes the MIDI output at `device_index` of the enumeration into
    /// use. An index beyond the enumeration leaves everything as it is.
    pub fn connect_midi_output(&mut self, names: &Vec<String>, device_index: usize) -> (r: Result<
        (),
        BatcherbirdError,
    >)
        ensures
            device_index >= names@.len() ==> r == Err::<(), BatcherbirdError>(
                (BatcherbirdError::PortOutOfRange {
                    index: device_index,
                    count: names@.len() as usize,
                }),
            ) && *final(self) == *old(self),
            device_index < names@.len() ==> r is Ok && is_selected(
                final(self).current_state.midi_output,
                DeviceType::MidiOutput,
                device_index as int,
                names@[device_index as int]@,
            ) && final(self).current_state.audio_input == old(self).current_state.audio_input
                && final(self).current_state.audio_output == old(
                self,
            ).current_state.audio_output,
    {
        match select_device(names, DeviceType::MidiOutput, device_index) {
            Ok(info) => {
                self.current_state.midi_output = Some(info);
                Ok(())
            },
            Err(e) => Err(e),
        }
    }

    /// Takes the audio input at `device_index` of the enumeration into use.
    pub fn connect_audio_input(&mut self, names: &Vec<String>, device_index: usize) -> (r: Result<
        (),
        BatcherbirdError,
    >)
        ensures
            device_index >= names@.len() ==> r == Err::<(), BatcherbirdError>(
                (BatcherbirdError::PortOutOfRange {
                    index: device_index,
                    count: names@.len() as usize,
                }),
            ) && *final(self) == *old(self),
            device_index < names@.len() ==> r is Ok && is_selected(
                final(self).current_state.audio_input,
                DeviceType::AudioInput,
                device_index as int,
                names@[device_index as int]@,
            ) && final(self).current_state.midi_output == old(self).current_state.midi_output
                && final(self).current_state.audio_output == old(
                self,
            ).current_state.audio_output,
    {
        match select_device(names, DeviceType::AudioInput, device_index) {
            Ok(info) => {
                self.current_state.audio_input = Some(info);
                Ok(())
            },
            Err(e) => Err(e),
        }
    }

    /// Takes the audio output at `device_index` of the enumeration into
    /// use.
    pub fn connect_audio_output(&mut self, names: &Vec<String>, device_index: usize) -> (r: Result<
        (),
        BatcherbirdError,
    >)
        ensures
            device_index >= names@.len() ==> r == Err::<(), BatcherbirdError>(
                (BatcherbirdError::PortOutOfRange {
                    index: device_index,
                    count: names@.len() as usize,
                }),
            ) && *final(self) == *old(self),
            device_index < names@.len() ==> r is Ok && is_selected(
                final(self).current_state.audio_output,
                DeviceType::AudioOutput,
                device_index as int,
                names@[device_index as int]@,
            ) && final(self).current_state.midi_output == old(self).current_state.midi_output
                && final(self).current_state.audio_input == old(self).current_state.audio_input,
    {
        match select_device(names, DeviceType::AudioOutput, device_index) {
            Ok(info) => {
                self.current_state.audio_output = Some(info);
                Ok(())
            },
            Err(e) => Err(e),
        }
    }

    pub fn get_device_state(&self) -> (state: &DeviceState)
        ensures
            *state == self.current_state,
    {
        &self.current_state
    }

    /// Takes every device out of use.
    pub fn disconnect_all(&mut self)
        ensures
            final(self).current_state.midi_output is None,
            final(self).current_state.audio_input is None,
            final(self).current_state.audio_output is None,
    {
        self.current_state = DeviceState { midi_output: None, audio_input: None, audio_output: None };
    }
}

} // verus!
