//! Input devices, the choice of a microphone, and the count of what its
//! callback had to drop.
use crate::error::AppError;
use crate::text::{decimal, decimal_text, same_text};
use vstd::prelude::*;
use vstd::string::*;

verus! {

/// The input configuration that a device starts with.
#[derive(Debug)]
pub struct InputConfig {
    pub sample_rate: u32,
    pub channels: u16,
    pub sample_format: String,
}

/// What a device says of itself; what it would not say is missing.
#[derive(Debug)]
pub struct DeviceReading {
    pub name: Option<String>,
    pub config: Option<InputConfig>,
}

/// An input device as it is listed to the user.
#[derive(Debug)]
pub struct AudioDeviceInfo {
    pub index: usize,
    pub name: String,
    pub is_default: bool,
    pub config: String,
}

impl Clone for AudioDeviceInfo {
    fn clone(&self) -> (copy: AudioDeviceInfo)
        ensures
            copy == *self,
    {
        AudioDeviceInfo {
            index: self.index,
            name: self.name.clone(),
            is_default: self.is_default,
            config: self.config.clone(),
        }
    }
}

/// The name that a device is listed by; one without a name is listed by its
/// number, from one on.
pub open spec fn listed_name(reading: DeviceReading, index: int) -> Seq<char> {
    match reading.name {
        Some(name) => name@,
        None => "Input device "@ + decimal_text((index + 1) as nat),
    }
}

/// The input configuration that a device is listed with.
pub open spec fn listed_config(reading: DeviceReading) -> Seq<char> {
    match reading.config {
        Some(config) => decimal_text(config.sample_rate as nat) + " Hz, "@ + decimal_text(
            config.channels as nat,
        ) + " ch, "@ + config.sample_format@,
        None => "unavailable"@,
    }
}

/// True if one of the devices before `end` is listed by `name`.
pub open spec fn name_seen(name: Seq<char>, readings: Seq<DeviceReading>, end: int) -> bool {
    exists|i: int| 0 <= i < end && listed_name(#[trigger] readings[i], i) == name
}

/// True if the device at `index` is the first that has the default name.
pub open spec fn is_default_at(
    default_name: Option<String>,
    readings: Seq<DeviceReading>,
    index: int,
) -> bool {
    match default_name {
        Some(default_name) => {
            &&& listed_name(readings[index], index) == default_name@
            &&& !name_seen(default_name@, readings, index)
        },
        None => false,
    }
}

/// True if `info` lists the device at `index`.
pub open spec fn lists_device(
    info: AudioDeviceInfo,
    default_name: Option<String>,
    readings: Seq<DeviceReading>,
    index: int,
) -> bool {
    &&& info.index == index
    &&& info.name@ == listed_name(readings[index], index)
    &&& info.is_default == is_default_at(default_name, readings, index)
    &&& info.config@ == listed_config(readings[index])
}

/// True if `infos` lists the devices of `readings`, one for one.
pub open spec fn lists_devices(
    infos: Seq<AudioDeviceInfo>,
    default_name: Option<String>,
    readings: Seq<DeviceReading>,
) -> bool {
    &&& infos.len() == readings.len()
    &&& forall|i: int|
        0 <= i < infos.len() ==> lists_device(#[trigger] infos[i], default_name, readings, i)
}

proof fn lemma_name_seen_step(name: Seq<char>, readings: Seq<DeviceReading>, end: int)
    requires
        0 <= end < readings.len(),
    ensures
        name_seen(name, readings, end + 1) == (name_seen(name, readings, end) || listed_name(
            readings[end],
            end,
        ) == name),
{
    if name_seen(name, readings, end + 1) {
        let i = choose|i: int| 0 <= i < end + 1 && listed_name(#[trigger] readings[i], i) == name;
        assert(i == end || name_seen(name, readings, end));
    }
}

/// Lists the input devices in the order of their `readings`. The first whose
/// name is that of the default device is marked.
pub fn input_devices(default_name: &Option<String>, readings: &Vec<DeviceReading>) -> (infos: Vec<
    AudioDeviceInfo,
>)
    ensures
        lists_devices(infos@, *default_name, readings@),
{
    let mut infos: Vec<AudioDeviceInfo> = Vec::new();
    let mut default_seen = false;
    let count: usize = readings.len();
    let mut index: usize = 0;
    while index < count
        invariant
            index <= count,
            count == readings@.len(),
            infos@.len() == index,
            forall|i: int|
                0 <= i < index ==> lists_device(#[trigger] infos@[i], *default_name, readings@, i),
            default_seen == (*default_name matches Some(name) && name_seen(
                name@,
                readings@,
                index as int,
            )),
        decreases count - index,
    {
        let name = match &readings[index].name {
            Some(name) => name.clone(),
            None => {
                let mut name = String::from_str("Input device ");
                let number: usize = index + 1;
                name.append(decimal(number as u64).as_str());
                name
            },
        };
        let config = match &readings[index].config {
            Some(config) => {
                let mut text = decimal(config.sample_rate as u64);
                text.append(" Hz, ");
                text.append(decimal(config.channels as u64).as_str());
                text.append(" ch, ");
                text.append(config.sample_format.as_str());
                text
            },
            None => String::from_str("unavailable"),
        };
        let matches_default = match default_name {
            Some(default_name) => same_text(name.as_str(), default_name.as_str()),
            None => false,
        };
        let is_default = !default_seen && matches_default;
        assert(is_default == is_default_at(*default_name, readings@, index as int));
        let ghost before = infos@;
        infos.push(AudioDeviceInfo { index, name, is_default, config });
        assert(forall|i: int| 0 <= i < index ==> infos@[i] == before[i]);
        if is_default {
            default_seen = true;
        }
        proof {
            if default_name is Some {
                lemma_name_seen_step(default_name->0@, readings@, index as int);
            }
        }
        index = index + 1;
    }
    infos
}

/// At most one device is listed as the default, and one is if any has the
/// default device's name.
pub proof fn law_at_most_one_default(
    infos: Seq<AudioDeviceInfo>,
    default_name: Option<String>,
    readings: Seq<DeviceReading>,
)
    requires
        lists_devices(infos, default_name, readings),
    ensures
        forall|i: int, j: int|
            0 <= i < infos.len() && 0 <= j < infos.len() && #[trigger] infos[i].is_default
                && #[trigger] infos[j].is_default ==> i == j,
        (exists|i: int|
            0 <= i < infos.len() && default_name is Some && #[trigger] infos[i].name@
                == default_name->0@) ==> exists|i: int|
            0 <= i < infos.len() && #[trigger] infos[i].is_default,
{
    assert forall|i: int, j: int|
        0 <= i < infos.len() && 0 <= j < infos.len() && #[trigger] infos[i].is_default
            && #[trigger] infos[j].is_default implies i == j by {
        assert(lists_device(infos[i], default_name, readings, i));
        assert(lists_device(infos[j], default_name, readings, j));
    }
    if exists|i: int|
        0 <= i < infos.len() && default_name is Some && #[trigger] infos[i].name@
            == default_name->0@ {
        let i = choose|i: int|
            0 <= i < infos.len() && default_name is Some && #[trigger] infos[i].name@
                == default_name->0@;
        assert(lists_device(infos[i], default_name, readings, i));
        lemma_first_with_name(infos, default_name, readings, i);
    }
}

proof fn lemma_first_with_name(
    infos: Seq<AudioDeviceInfo>,
    default_name: Option<String>,
    readings: Seq<DeviceReading>,
    index: int,
)
    requires
        lists_devices(infos, default_name, readings),
        0 <= index < infos.len(),
        default_name is Some,
        listed_name(readings[index], index) == default_name->0@,
    ensures
        exists|i: int| 0 <= i < infos.len() && #[trigger] infos[i].is_default,
    decreases index,
{
    if name_seen(default_name->0@, readings, index) {
        let earlier = choose|earlier: int|
            0 <= earlier < index && listed_name(#[trigger] readings[earlier], earlier)
                == default_name->0@;
        lemma_first_with_name(infos, default_name, readings, earlier);
    } else {
        assert(lists_device(infos[index], default_name, readings, index));
        assert(infos[index].is_default);
    }
}

/// The device to record from.
#[derive(Clone, Copy, Debug, Eq, PartialEq, Structural)]
pub enum MicrophoneChoice {
    /// The device at this place in the host's list.
    Listed(usize),
    /// The host's default device.
    Default,
}

/// True if the device at `index` says that its name is `name`.
pub open spec fn has_name(names: Seq<Option<String>>, index: int, name: Seq<char>) -> bool {
    names[index] matches Some(found) && found@ == name
}

/// Chooses the device to record from: the first that has the selected name,
/// or the default device where no name was selected.
pub fn select_microphone(
    selected: Option<&str>,
    names: &Vec<Option<String>>,
    default_present: bool,
) -> (choice: Result<MicrophoneChoice, AppError>)
    ensures
        match selected {
            Some(name) => match choice {
                Ok(MicrophoneChoice::Listed(index)) => {
                    &&& index < names@.len()
                    &&& has_name(names@, index as int, name@)
                    &&& forall|i: int| 0 <= i < index ==> !#[trigger] has_name(names@, i, name@)
                },
                Ok(MicrophoneChoice::Default) => false,
                Err(error) => {
                    &&& error matches AppError::MicrophoneNotFound { name: missing }
                        && missing@ == name@
                    &&& forall|i: int|
                        0 <= i < names@.len() ==> !#[trigger] has_name(names@, i, name@)
                },
            },
            None => choice == if default_present {
                Ok::<MicrophoneChoice, AppError>(MicrophoneChoice::Default)
            } else {
                Err::<MicrophoneChoice, AppError>(AppError::NoDefaultMicrophone)
            },
        },
{
    match selected {
        Some(name) => {
            let mut index: usize = 0;
            while index < names.len()
                invariant
                    index <= names@.len(),
                    selected == Some(name),
                    forall|i: int| 0 <= i < index ==> !#[trigger] has_name(names@, i, name@),
                decreases names@.len() - index,
            {
                let found = match &names[index] {
                    Some(candidate) => same_text(candidate.as_str(), name),
                    None => false,
                };
                if found {
                    return Ok(MicrophoneChoice::Listed(index));
                }
                index = index + 1;
            }
            Err(AppError::MicrophoneNotFound { name: String::from_str(name) })
        },
        None => if default_present {
            Ok(MicrophoneChoice::Default)
        } else {
            Err(AppError::NoDefaultMicrophone)
        },
    }
}

/// The name that a recording goes by.
pub fn capture_name(name: Option<String>) -> (title: String)
    ensures
        match name {
            Some(name) => title == name,
            None => title@ == "Microphone"@,
        },
{
    match name {
        Some(name) => name,
        None => String::from_str("Microphone"),
    }
}

/// How a device writes one sample.
#[derive(Debug)]
pub enum SampleKind {
    F32,
    F64,
    I8,
    I16,
    I32,
    U8,
    U16,
    U32,
    /// Any other format, by its name.
    Other(String),
}

/// Checks that samples of this kind can be read.
pub fn check_sample_kind(kind: &SampleKind) -> (outcome: Result<(), AppError>)
    ensures
        match *kind {
            SampleKind::Other(name) => outcome matches Err(AppError::UnsupportedSampleFormat {
                format,
            }) && format@ == name@,
            _ => outcome is Ok,
        },
{
    match kind {
        SampleKind::Other(name) => Err(AppError::UnsupportedSampleFormat { format: name.clone() }),
        _ => Ok(()),
    }
}

/// Says what went wrong with the microphone's stream.
pub fn stream_error_message(error: &str) -> (message: String)
    ensures
        message@ == "Microphone stream error: "@ + error@,
{
    let mut message = String::from_str("Microphone stream error: ");
    message.append(error);
    message
}

/// What the audio callback had to drop, as it stood at one moment.
#[derive(Clone, Copy, Debug, Default, Eq, PartialEq, Structural)]
pub struct AudioCallbackStatsSnapshot {
    pub dropped_audio_chunks: u64,
    pub dropped_level_updates: u64,
}

/// Counts what the audio callback has to drop because nobody takes it in time.
#[derive(Debug)]
pub struct AudioCallbackStats {
    dropped_audio_chunks: u64,
    dropped_level_updates: u64,
}

impl View for AudioCallbackStats {
    type V = AudioCallbackStatsSnapshot;

    closed spec fn view(&self) -> AudioCallbackStatsSnapshot {
        AudioCallbackStatsSnapshot {
            dropped_audio_chunks: self.dropped_audio_chunks,
            dropped_level_updates: self.dropped_level_updates,
        }
    }
}

impl Default for AudioCallbackStats {
    /// Nothing has been dropped yet.
    fn default() -> (stats: AudioCallbackStats)
        ensures
            stats@.dropped_audio_chunks == 0,
            stats@.dropped_level_updates == 0,
    {
        AudioCallbackStats { dropped_audio_chunks: 0, dropped_level_updates: 0 }
    }
}

/// The count after `count`; the counter starts again at its limit.
pub open spec fn next_count(count: u64) -> u64 {
    if count == u64::MAX {
        0
    } else {
        (count + 1) as u64
    }
}

/// What the audio callback can have to drop.
pub enum Dropped {
    AudioChunk,
    LevelUpdate,
}

impl AudioCallbackStatsSnapshot {
    /// The counts after one more thing was dropped.
    pub open spec fn after_drop(self, dropped: Dropped) -> AudioCallbackStatsSnapshot {
        match dropped {
            Dropped::AudioChunk => AudioCallbackStatsSnapshot {
                dropped_audio_chunks: next_count(self.dropped_audio_chunks),
                ..self
            },
            Dropped::LevelUpdate => AudioCallbackStatsSnapshot {
                dropped_level_updates: next_count(self.dropped_level_updates),
                ..self
            },
        }
    }

    /// The counts after all of `drops`.
    pub open spec fn after_drops(self, drops: Seq<Dropped>) -> AudioCallbackStatsSnapshot
        decreases drops.len(),
    {
        if drops.len() == 0 {
            self
        } else {
            self.after_drops(drops.drop_last()).after_drop(drops.last())
        }
    }
}

/// How many of `drops` are of this kind.
pub open spec fn count_of(drops: Seq<Dropped>, kind: Dropped) -> nat
    decreases drops.len(),
{
    if drops.len() == 0 {
        0
    } else {
        count_of(drops.drop_last(), kind) + (if drops.last() == kind {
            1nat
        } else {
            0nat
        })
    }
}

/// The counts are exact, in whatever order things are dropped: counters that
/// start from nothing hold how many pieces of audio and how many levels were
/// dropped, as long as the numbers can be counted to.
pub proof fn law_every_drop_is_counted(start: AudioCallbackStatsSnapshot, drops: Seq<Dropped>)
    requires
        start.dropped_audio_chunks == 0,
        start.dropped_level_updates == 0,
        count_of(drops, Dropped::AudioChunk) <= u64::MAX,
        count_of(drops, Dropped::LevelUpdate) <= u64::MAX,
    ensures
        start.after_drops(drops).dropped_audio_chunks == count_of(drops, Dropped::AudioChunk),
        start.after_drops(drops).dropped_level_updates == count_of(drops, Dropped::LevelUpdate),
    decreases drops.len(),
{
    if drops.len() > 0 {
        law_every_drop_is_counted(start, drops.drop_last());
    }
}

impl AudioCallbackStats {
    /// The counts as they stand.
    pub fn snapshot(&self) -> (counts: AudioCallbackStatsSnapshot)
        ensures
            counts == self@,
    {
        AudioCallbackStatsSnapshot {
            dropped_audio_chunks: self.dropped_audio_chunks,
            dropped_level_updates: self.dropped_level_updates,
        }
    }

    /// Counts one more dropped piece of audio.
    pub fn record_dropped_audio_chunk(&mut self)
        ensures
            final(self)@ == old(self)@.after_drop(Dropped::AudioChunk),
    {
        self.dropped_audio_chunks = self.dropped_audio_chunks.wrapping_add(1);
    }

    /// Counts one more dropped level.
    pub fn record_dropped_level_update(&mut self)
        ensures
            final(self)@ == old(self)@.after_drop(Dropped::LevelUpdate),
    {
        self.dropped_level_updates = self.dropped_level_updates.wrapping_add(1);
    }

    /// Counts what one run of the callback could not hand on.
    pub fn record_delivery(&mut self, level_taken: bool, audio_taken: bool)
        ensures
            final(self)@ == old(self)@.after_drops(missed(level_taken, audio_taken)),
    {
        proof {
            reveal_with_fuel(AudioCallbackStatsSnapshot::after_drops, 3);
            let drops = missed(level_taken, audio_taken);
            if !level_taken && !audio_taken {
                assert(drops.drop_last() =~= seq![Dropped::LevelUpdate]);
                assert(drops.drop_last().drop_last() =~= Seq::empty());
            } else if !level_taken || !audio_taken {
                assert(drops.drop_last() =~= Seq::empty());
            }
        }
        if !level_taken {
            self.record_dropped_level_update();
        }
        if !audio_taken {
            self.record_dropped_audio_chunk();
        }
    }
}

/// What one run of the callback drops if these are not taken.
pub open spec fn missed(level_taken: bool, audio_taken: bool) -> Seq<Dropped> {
    (if level_taken {
        Seq::empty()
    } else {
        seq![Dropped::LevelUpdate]
    }) + (if audio_taken {
        Seq::empty()
    } else {
        seq![Dropped::AudioChunk]
    })
}

/// Every device is listed at its place, by its own name or, where it has none, by
/// its number from one on, and with its own rate, channels and sample format. The
/// one that is marked has the name of the default device, and no device before it
/// has.
pub proof fn law_devices_are_listed_as_they_are(
    infos: Seq<AudioDeviceInfo>,
    default_name: Option<String>,
    readings: Seq<DeviceReading>,
    index: int,
)
    requires
        lists_devices(infos, default_name, readings),
        0 <= index < readings.len(),
    ensures
        infos.len() == readings.len(),
        infos[index].index == index,
        readings[index].name matches Some(name) ==> infos[index].name@ == name@,
        readings[index].name is None ==> infos[index].name@ == "Input device "@ + decimal_text(
            (index + 1) as nat,
        ),
        readings[index].config matches Some(config) ==> infos[index].config@ == decimal_text(
            config.sample_rate as nat,
        ) + " Hz, "@ + decimal_text(config.channels as nat) + " ch, "@ + config.sample_format@,
        readings[index].config is None ==> infos[index].config@ == "unavailable"@,
        default_name is None ==> !infos[index].is_default,
        default_name matches Some(name) ==> (infos[index].is_default <==> infos[index].name@
            == name@ && forall|i: int| 0 <= i < index ==> (#[trigger] infos[i]).name@ != name@),
{
    assert(lists_device(infos[index], default_name, readings, index));
    if let Some(name) = default_name {
        if forall|i: int| 0 <= i < index ==> (#[trigger] infos[i]).name@ != name@ {
            assert forall|i: int| 0 <= i < index implies listed_name(#[trigger] readings[i], i)
                != name@ by {
                assert(lists_device(infos[i], default_name, readings, i));
            }
        } else {
            let i = choose|i: int| 0 <= i < index && (#[trigger] infos[i]).name@ == name@;
            assert(lists_device(infos[i], default_name, readings, i));
            assert(listed_name(readings[i], i) == name@);
            assert(name_seen(name@, readings, index));
        }
    }
}

/// A device has a name only if it says so, and then exactly that one.
pub proof fn law_devices_have_the_names_they_say(names: Seq<Option<String>>, index: int, name: Seq<char>)
    ensures
        names[index] is None ==> !has_name(names, index, name),
        names[index] matches Some(said) ==> (has_name(names, index, name) <==> said@ == name),
{
}

/// What could not be handed on is counted, each in its own count and once, and
/// what was taken is not. A count that has reached its limit starts again.
pub proof fn law_only_what_is_missed_is_counted(
    counts: AudioCallbackStatsSnapshot,
    level_taken: bool,
    audio_taken: bool,
)
    ensures
        ({
            let after = counts.after_drops(missed(level_taken, audio_taken));
            &&& audio_taken ==> after.dropped_audio_chunks == counts.dropped_audio_chunks
            &&& level_taken ==> after.dropped_level_updates == counts.dropped_level_updates
            &&& !audio_taken && counts.dropped_audio_chunks < u64::MAX ==> after.dropped_audio_chunks
                == counts.dropped_audio_chunks + 1
            &&& !level_taken && counts.dropped_level_updates < u64::MAX
                ==> after.dropped_level_updates == counts.dropped_level_updates + 1
            &&& !audio_taken && counts.dropped_audio_chunks == u64::MAX
                ==> after.dropped_audio_chunks == 0
            &&& !level_taken && counts.dropped_level_updates == u64::MAX
                ==> after.dropped_level_updates == 0
        }),
        counts.after_drop(Dropped::AudioChunk) == counts.after_drops(missed(true, false)),
        counts.after_drop(Dropped::LevelUpdate) == counts.after_drops(missed(false, true)),
{
    reveal_with_fuel(AudioCallbackStatsSnapshot::after_drops, 3);
    let both = missed(false, false);
    assert(both.drop_last() =~= seq![Dropped::LevelUpdate]);
    assert(both.drop_last().drop_last() =~= Seq::empty());
    assert(missed(false, true) =~= seq![Dropped::LevelUpdate]);
    assert(missed(true, false) =~= seq![Dropped::AudioChunk]);
    assert(seq![Dropped::LevelUpdate].drop_last() =~= Seq::empty());
    assert(seq![Dropped::AudioChunk].drop_last() =~= Seq::empty());
    assert(missed(true, true) =~= Seq::empty());
}

} // verus!
