//! The configuration model: modes, presets, triggers and schedule entries.

use vstd::prelude::*;
use vstd::std_specs::convert::TryFromSpecImpl;
use vstd::string::*;
use crate::backends::{Backend, Temperature};
use crate::text::{digit_value, equals_ignoring_case, is_digit, same_ignoring_case, same_text};
use crate::time::{has_date, local_time_at, TimeOfDay};
use crate::utils::RemoveSeconds;
use crate::{ParseError, StateFileName};

verus! {

/// Whether the daemon applies the schedule (`Dynamic`) or stands by
/// (`Static`).
#[derive(Clone, Copy, Debug, PartialEq, Eq, Structural)]
pub enum Mode {
    Static,
    Dynamic,
}

impl Default for Mode {
    fn default() -> (mode: Mode)
        ensures
            mode == Mode::Static,
    {
        Mode::Static
    }
}

impl Mode {
    /// The mode that a word stands for: `dynamic` or `static`, in small or
    /// capital letters.
    pub open spec fn named(word: Seq<char>) -> Result<Mode, ParseError> {
        if same_ignoring_case(word, "dynamic"@) {
            Ok(Mode::Dynamic)
        } else if same_ignoring_case(word, "static"@) {
            Ok(Mode::Static)
        } else {
            Err(ParseError::NoSuchMode)
        }
    }

    /// The word that the mode is kept as in its state file.
    pub open spec fn word(&self) -> Seq<char> {
        match self {
            Mode::Static => "static"@,
            Mode::Dynamic => "dynamic"@,
        }
    }

    /// The mode as it is kept in its state file: in small letters.
    pub fn to_text(&self) -> (text: String)
        ensures
            text@ == self.word(),
    {
        match self {
            Mode::Static => "static".to_owned(),
            Mode::Dynamic => "dynamic".to_owned(),
        }
    }
}

impl TryFrom<String> for Mode {
    type Error = ParseError;

    /// Reads a mode from the text of its state file.
    fn try_from(value: String) -> (mode: Result<Mode, ParseError>) {
        if equals_ignoring_case(value.as_str(), "dynamic") {
            Ok(Mode::Dynamic)
        } else if equals_ignoring_case(value.as_str(), "static") {
            Ok(Mode::Static)
        } else {
            Err(ParseError::NoSuchMode)
        }
    }
}

impl TryFromSpecImpl<String> for Mode {
    open spec fn obeys_try_from_spec() -> bool {
        true
    }

    open spec fn try_from_spec(value: String) -> Result<Mode, ParseError> {
        Mode::named(value@)
    }
}

/// Reading a mode back from the word it is kept as gives the mode.
pub proof fn lemma_mode_round_trip(mode: Mode)
    ensures
        Mode::named(mode.word()) == Ok::<Mode, ParseError>(mode),
{
    reveal_strlit("static");
    reveal_strlit("dynamic");
    assert(crate::text::lowered("static"@).len() != crate::text::lowered("dynamic"@).len());
}

impl StateFileName for Mode {
    open spec fn file_name() -> Seq<char> {
        "mode"@
    }

    fn name() -> (name: String) {
        "mode".to_owned()
    }
}

/// A named temperature.
#[derive(Clone, Debug)]
pub struct Preset {
    pub name: String,
    pub temperature: Temperature,
}

/// A place on Earth, in millionths of a degree: latitude north, longitude
/// east.
#[derive(Clone, Copy, Debug, PartialEq, Eq, Structural)]
pub struct Location {
    pub latitude: i32,
    pub longitude: i32,
}

/// Today's sunrise and sunset as local wall-clock times.
#[derive(Clone, Copy, Debug, PartialEq, Eq, Structural)]
pub struct SunTimes {
    pub sunrise: TimeOfDay,
    pub sunset: TimeOfDay,
}

impl SunTimes {
    /// Both are times of day.
    pub open spec fn wf(&self) -> bool {
        self.sunrise.wf() && self.sunset.wf()
    }

    /// The day's sun times, where both events have a time.
    pub open spec fn both(sunrise: Option<TimeOfDay>, sunset: Option<TimeOfDay>) -> Option<SunTimes> {
        match (sunrise, sunset) {
            (Some(sunrise), Some(sunset)) => Some(SunTimes { sunrise, sunset }),
            _ => None,
        }
    }

    /// The day's sun times, where both events have a time.
    pub fn from_times(sunrise: Option<TimeOfDay>, sunset: Option<TimeOfDay>) -> (times: Option<SunTimes>)
        ensures
            times == SunTimes::both(sunrise, sunset),
    {
        match (sunrise, sunset) {
            (Some(sunrise), Some(sunset)) => Some(SunTimes { sunrise, sunset }),
            _ => None,
        }
    }
}

/// Today's sunrise and sunset as Unix timestamps.
#[derive(Clone, Copy, Debug, PartialEq, Eq, Structural)]
pub struct SunEvents {
    pub rise: i64,
    pub set: i64,
}

impl SunEvents {
    /// The two events as local wall-clock times: there are such times
    /// exactly where both timestamps have a date. Which times come back
    /// depends on the machine's time zone; they are times of day, on whole
    /// seconds.
    pub fn local_times(&self) -> (times: Option<SunTimes>)
        ensures
            times is Some <==> has_date(self.rise) && has_date(self.set),
            times is Some ==> times.unwrap().wf(),
            times is Some ==> times.unwrap().sunrise.frac == 0 && times.unwrap().sunset.frac == 0,
    {
        let sunrise = local_time_at(self.rise);
        let sunset = local_time_at(self.set);
        SunTimes::from_times(sunrise, sunset)
    }
}

/// A trigger that follows the sun.
#[derive(Clone, Copy, Debug, PartialEq, Eq, Structural)]
pub enum ScheduleLightTrigger {
    Sunset,
    Sunrise,
}

/// What starts a schedule block: a fixed time of day or a light event.
#[derive(Clone, Copy, Debug, PartialEq, Eq, Structural)]
pub enum ScheduleTrigger {
    Time(TimeOfDay),
    Light(ScheduleLightTrigger),
}

/// Why a trigger has no time today.
#[derive(Clone, Copy, Debug, PartialEq, Eq, Structural)]
pub enum ResolveError {
    /// A light trigger, and no location is configured.
    MissingLocation,
    /// A light trigger, and the sun's times could not be calculated.
    NoSunTimes,
}

impl ResolveError {
    /// What is wrong, in words.
    pub open spec fn text(&self) -> Seq<char> {
        match self {
            ResolveError::MissingLocation => "Using light based schedule entry but no location was provided!"@,
            ResolveError::NoSunTimes => "The times of sunrise and sunset could not be calculated"@,
        }
    }

    /// What is wrong, in words.
    pub fn message(&self) -> (message: String)
        ensures
            message@ == self.text(),
    {
        match self {
            ResolveError::MissingLocation => "Using light based schedule entry but no location was provided!".to_owned(),
            ResolveError::NoSunTimes => "The times of sunrise and sunset could not be calculated".to_owned(),
        }
    }
}

/// Why a configuration is refused.
#[derive(Clone, Copy, Debug, PartialEq, Eq, Structural)]
pub enum ConfigError {
    /// A schedule entry gives both a temperature and a preset.
    BothTemperatureAndPreset,
    /// A schedule entry gives neither a temperature nor a preset.
    NeitherTemperatureNorPreset,
    /// A trigger has the shape of a time, and no such time exists.
    InvalidTimeFormat,
    /// A trigger is neither a time nor a light event.
    InvalidTrigger,
    /// A schedule entry names a preset that is not configured.
    UnknownPreset,
    /// A schedule entry follows the sun, and no location is configured.
    MissingLocation,
}

impl ConfigError {
    /// The error ends the loading of a configuration. A trigger that
    /// cannot be read does not: the file is then set aside for the
    /// defaults.
    pub open spec fn fatal(&self) -> bool {
        !(*self is InvalidTimeFormat || *self is InvalidTrigger)
    }

    /// Whether the error ends the loading of a configuration.
    pub fn is_fatal(&self) -> (fatal: bool)
        ensures
            fatal == self.fatal(),
    {
        match self {
            ConfigError::InvalidTimeFormat => false,
            ConfigError::InvalidTrigger => false,
            _ => true,
        }
    }

    /// What is wrong, in words.
    pub open spec fn text(&self) -> Seq<char> {
        match self {
            ConfigError::BothTemperatureAndPreset => "Cannot have both temperature and preset fields"@,
            ConfigError::NeitherTemperatureNorPreset => "Must have either temperature or preset field"@,
            ConfigError::InvalidTimeFormat => "Invalid time format"@,
            ConfigError::InvalidTrigger => "Invalid trigger"@,
            ConfigError::UnknownPreset => "Unknown preset in schedule"@,
            ConfigError::MissingLocation => "Using light based schedule entry but no location was provided!"@,
        }
    }

    /// What is wrong, in words.
    pub fn message(&self) -> (message: String)
        ensures
            message@ == self.text(),
    {
        match self {
            ConfigError::BothTemperatureAndPreset => "Cannot have both temperature and preset fields".to_owned(),
            ConfigError::NeitherTemperatureNorPreset => "Must have either temperature or preset field".to_owned(),
            ConfigError::InvalidTimeFormat => "Invalid time format".to_owned(),
            ConfigError::InvalidTrigger => "Invalid trigger".to_owned(),
            ConfigError::UnknownPreset => "Unknown preset in schedule".to_owned(),
            ConfigError::MissingLocation => "Using light based schedule entry but no location was provided!".to_owned(),
        }
    }
}

/// A schedule entry: a trigger with a temperature, given directly or by the
/// name of a preset.
#[derive(Clone, Debug)]
pub enum Schedule {
    Temperature { trigger: ScheduleTrigger, temperature: Temperature },
    Preset { trigger: ScheduleTrigger, preset: String },
}

/// The temperature of the first preset called `name`, if there is one.
pub open spec fn preset_named(presets: Seq<Preset>, name: Seq<char>) -> Option<Temperature>
    decreases presets.len(),
{
    if presets.len() == 0 {
        None
    } else if presets[0].name@ == name {
        Some(presets[0].temperature)
    } else {
        preset_named(presets.drop_first(), name)
    }
}

/// `preset_named` finds a preset exactly when one of that name exists.
pub proof fn lemma_preset_named(presets: Seq<Preset>, name: Seq<char>)
    ensures
        preset_named(presets, name) is Some <==> exists|i: int|
            0 <= i < presets.len() && #[trigger] presets[i].name@ == name,
        preset_named(presets, name) is Some ==> exists|i: int|
            0 <= i < presets.len() && #[trigger] presets[i].name@ == name
                && presets[i].temperature == preset_named(presets, name).unwrap()
                && forall|j: int| 0 <= j < i ==> #[trigger] presets[j].name@ != name,
    decreases presets.len(),
{
    if presets.len() == 0 {
    } else if presets[0].name@ == name {
        assert(presets[0].name@ == name);
    } else {
        let rest = presets.drop_first();
        lemma_preset_named(rest, name);
        if preset_named(rest, name) is Some {
            let i = choose|i: int|
                0 <= i < rest.len() && #[trigger] rest[i].name@ == name && rest[i].temperature
                    == preset_named(rest, name).unwrap() && forall|j: int|
                    0 <= j < i ==> #[trigger] rest[j].name@ != name;
            assert(presets[i + 1] == rest[i]);
            assert forall|j: int| 0 <= j < i + 1 implies #[trigger] presets[j].name@ != name by {
                if j > 0 {
                    assert(presets[j] == rest[j - 1]);
                }
            }
            assert(presets[i + 1].name@ == name);
        }
        if exists|i: int| 0 <= i < presets.len() && #[trigger] presets[i].name@ == name {
            let i = choose|i: int| 0 <= i < presets.len() && #[trigger] presets[i].name@ == name;
            assert(rest[i - 1] == presets[i]);
            assert(rest[i - 1].name@ == name);
        }
    }
}

/// The temperature of the first preset called `name`, if there is one.
pub fn find_preset(presets: &Vec<Preset>, name: &String) -> (found: Option<Temperature>)
    ensures
        found == preset_named(presets@, name@),
{
    let mut i: usize = 0;
    assert(presets@.skip(0) == presets@);
    while i < presets.len()
        invariant
            i <= presets.len(),
            preset_named(presets@, name@) == preset_named(presets@.skip(i as int), name@),
        decreases presets.len() - i,
    {
        assert(presets@.skip(i as int)[0] == presets@[i as int]);
        assert(presets@.skip(i as int).drop_first() == presets@.skip(i as int + 1));
        if presets[i].name == *name {
            return Some(presets[i].temperature);
        }
        i += 1;
    }
    assert(presets@.skip(i as int).len() == 0);
    None
}

impl ScheduleLightTrigger {
    /// The light event's minute among the day's sun times.
    pub open spec fn time_in(&self, sun: SunTimes) -> TimeOfDay {
        match self {
            ScheduleLightTrigger::Sunset => sun.sunset.without_seconds(),
            ScheduleLightTrigger::Sunrise => sun.sunrise.without_seconds(),
        }
    }

    /// The wall-clock minute of the light event, given the day's sun times.
    pub fn get_time(&self, sun: &SunTimes) -> (time: TimeOfDay)
        ensures
            time == self.time_in(*sun),
    {
        match self {
            ScheduleLightTrigger::Sunset => sun.sunset.remove_seconds(),
            ScheduleLightTrigger::Sunrise => sun.sunrise.remove_seconds(),
        }
    }
}

/// The text has the shape of a time: two digits, a colon, two digits.
pub open spec fn time_shaped(text: Seq<char>) -> bool {
    &&& text.len() == 5
    &&& is_digit(text[0])
    &&& is_digit(text[1])
    &&& text[2] == ':'
    &&& is_digit(text[3])
    &&& is_digit(text[4])
}

/// The trigger that a text stands for: `HH:MM` for a time of day of the
/// 24-hour clock, `sunset` or `sunrise` for a light event.
pub open spec fn parsed_trigger(text: Seq<char>) -> Result<ScheduleTrigger, ConfigError> {
    if time_shaped(text) {
        let hour = digit_value(text[0]) * 10 + digit_value(text[1]);
        let minute = digit_value(text[3]) * 10 + digit_value(text[4]);
        if hour < 24 && minute < 60 {
            Ok(ScheduleTrigger::Time(TimeOfDay::hm(hour as u32, minute as u32)))
        } else {
            Err(ConfigError::InvalidTimeFormat)
        }
    } else if text == "sunset"@ {
        Ok(ScheduleTrigger::Light(ScheduleLightTrigger::Sunset))
    } else if text == "sunrise"@ {
        Ok(ScheduleTrigger::Light(ScheduleLightTrigger::Sunrise))
    } else {
        Err(ConfigError::InvalidTrigger)
    }
}

/// The number that a character stands for, if it is a digit.
fn digit_of(c: char) -> (digit: Option<u32>)
    ensures
        digit is Some == is_digit(c),
        digit is Some ==> digit.unwrap() == digit_value(c),
{
    if '0' <= c && c <= '9' {
        Some(c as u32 - 48)
    } else {
        None
    }
}

/// Reads `HH:MM`: `None` where the text has not that shape, else the two
/// numbers.
fn parse_clock(text: &str) -> (clock: Option<(u32, u32)>)
    ensures
        clock is Some == time_shaped(text@),
        clock is Some ==> clock.unwrap().0 == digit_value(text@[0]) * 10 + digit_value(text@[1]),
        clock is Some ==> clock.unwrap().1 == digit_value(text@[3]) * 10 + digit_value(text@[4]),
{
    if text.unicode_len() != 5 {
        return None;
    }
    if text.get_char(2) != ':' {
        return None;
    }
    match (
        digit_of(text.get_char(0)),
        digit_of(text.get_char(1)),
        digit_of(text.get_char(3)),
        digit_of(text.get_char(4)),
    ) {
        (Some(h1), Some(h0), Some(m1), Some(m0)) => Some((h1 * 10 + h0, m1 * 10 + m0)),
        _ => None,
    }
}

impl ScheduleTrigger {
    /// Reads a trigger: `HH:MM`, `sunset` or `sunrise`.
    pub fn parse(text: &str) -> (trigger: Result<ScheduleTrigger, ConfigError>)
        ensures
            trigger == parsed_trigger(text@),
            trigger is Ok ==> trigger.unwrap().wf(),
    {
        match parse_clock(text) {
            Some((hour, minute)) => match TimeOfDay::from_hm(hour, minute) {
                Some(time) => Ok(ScheduleTrigger::Time(time)),
                None => Err(ConfigError::InvalidTimeFormat),
            },
            None => {
                if same_text(text, "sunset") {
                    Ok(ScheduleTrigger::Light(ScheduleLightTrigger::Sunset))
                } else if same_text(text, "sunrise") {
                    Ok(ScheduleTrigger::Light(ScheduleLightTrigger::Sunrise))
                } else {
                    Err(ConfigError::InvalidTrigger)
                }
            },
        }
    }

    /// The trigger holds a time of day, if it holds a time.
    pub open spec fn wf(&self) -> bool {
        match self {
            ScheduleTrigger::Time(time) => time.wf(),
            ScheduleTrigger::Light(_) => true,
        }
    }

    /// The trigger follows the sun.
    pub open spec fn is_light(&self) -> bool {
        self is Light
    }

    /// The trigger's time today: a fixed time rounded down to its minute, or
    /// the light event's minute at the configured location.
    pub open spec fn resolve(&self, location: Option<Location>, sun: Option<SunTimes>) -> Result<
        TimeOfDay,
        ResolveError,
    > {
        match self {
            ScheduleTrigger::Time(time) => Ok(time.without_seconds()),
            ScheduleTrigger::Light(light) => if location is None {
                Err(ResolveError::MissingLocation)
            } else if sun is None {
                Err(ResolveError::NoSunTimes)
            } else {
                Ok(light.time_in(sun.unwrap()))
            },
        }
    }

    /// Resolves the trigger to its time of day today.
    pub fn get_time(&self, location: &Option<Location>, sun: &Option<SunTimes>) -> (time: Result<
        TimeOfDay,
        ResolveError,
    >)
        ensures
            time == self.resolve(*location, *sun),
    {
        match self {
            ScheduleTrigger::Time(time) => Ok(time.remove_seconds()),
            ScheduleTrigger::Light(light) => match (location, sun) {
                (None, _) => Err(ResolveError::MissingLocation),
                (Some(_), None) => Err(ResolveError::NoSunTimes),
                (Some(_), Some(times)) => Ok(light.get_time(times)),
            },
        }
    }
}

/// What is wrong with the two fields that give an entry its temperature:
/// both are there, or neither is.
pub open spec fn fields_fault(temperature: Option<Temperature>, preset: Option<String>) -> Option<
    ConfigError,
> {
    match (temperature, preset) {
        (Some(_), Some(_)) => Some(ConfigError::BothTemperatureAndPreset),
        (None, None) => Some(ConfigError::NeitherTemperatureNorPreset),
        _ => None,
    }
}

/// The entry that the fields of a configured entry make: a trigger with
/// either a temperature or the name of a preset, not both and not neither.
/// Both or neither is what is wrong with the fields, whatever the trigger;
/// a trigger that cannot be read is what is wrong with them otherwise.
pub open spec fn entry_of(trigger: Seq<char>, temperature: Option<Temperature>, preset: Option<String>) -> Result<
    Schedule,
    ConfigError,
> {
    match (temperature, preset) {
        (Some(_), Some(_)) => Err(ConfigError::BothTemperatureAndPreset),
        (None, None) => Err(ConfigError::NeitherTemperatureNorPreset),
        (Some(temperature), None) => match parsed_trigger(trigger) {
            Err(error) => Err(error),
            Ok(trigger) => Ok(Schedule::Temperature { trigger, temperature }),
        },
        (None, Some(preset)) => match parsed_trigger(trigger) {
            Err(error) => Err(error),
            Ok(trigger) => Ok(Schedule::Preset { trigger, preset }),
        },
    }
}

impl Schedule {
    /// Makes an entry from the fields of a configured entry.
    pub fn from_fields(trigger: &str, temperature: Option<Temperature>, preset: Option<String>) -> (entry:
        Result<Schedule, ConfigError>)
        ensures
            entry == entry_of(trigger@, temperature, preset),
            entry is Ok ==> entry.unwrap().wf(),
    {
        match (temperature, preset) {
            (Some(_), Some(_)) => Err(ConfigError::BothTemperatureAndPreset),
            (None, None) => Err(ConfigError::NeitherTemperatureNorPreset),
            (Some(temperature), None) => match ScheduleTrigger::parse(trigger) {
                Err(error) => Err(error),
                Ok(trigger) => Ok(Schedule::Temperature { trigger, temperature }),
            },
            (None, Some(preset)) => match ScheduleTrigger::parse(trigger) {
                Err(error) => Err(error),
                Ok(trigger) => Ok(Schedule::Preset { trigger, preset }),
            },
        }
    }

    /// The entry's trigger.
    pub open spec fn trigger(&self) -> ScheduleTrigger {
        match self {
            Schedule::Temperature { trigger, .. } => *trigger,
            Schedule::Preset { trigger, .. } => *trigger,
        }
    }

    /// The entry's trigger holds a time of day, if it holds a time.
    pub open spec fn wf(&self) -> bool {
        self.trigger().wf()
    }

    /// The entry's temperature: its own, or that of the preset it names.
    pub open spec fn temperature_in(&self, presets: Seq<Preset>) -> Option<Temperature> {
        match self {
            Schedule::Temperature { temperature, .. } => Some(*temperature),
            Schedule::Preset { preset, .. } => preset_named(presets, preset@),
        }
    }

    /// The entry's trigger.
    pub fn get_trigger(&self) -> (trigger: &ScheduleTrigger)
        ensures
            *trigger == self.trigger(),
    {
        match self {
            Schedule::Temperature { trigger, .. } => trigger,
            Schedule::Preset { trigger, .. } => trigger,
        }
    }

    /// Resolves the entry's trigger to its time of day today.
    pub fn get_time(&self, location: &Option<Location>, sun: &Option<SunTimes>) -> (time: Result<
        TimeOfDay,
        ResolveError,
    >)
        ensures
            time == self.trigger().resolve(*location, *sun),
    {
        self.get_trigger().get_time(location, sun)
    }

    /// The entry's temperature, or `None` where it names a preset that is not
    /// among `presets`.
    pub fn get_temperature(&self, presets: &Vec<Preset>) -> (temperature: Option<Temperature>)
        ensures
            temperature == self.temperature_in(presets@),
    {
        match self {
            Schedule::Temperature { temperature, .. } => Some(*temperature),
            Schedule::Preset { preset, .. } => find_preset(presets, preset),
        }
    }
}

/// Every entry that names a preset names one of `presets`.
pub open spec fn presets_known(schedule: Seq<Schedule>, presets: Seq<Preset>) -> bool {
    forall|i: int| 0 <= i < schedule.len() ==> (#[trigger] schedule[i]).temperature_in(presets) is Some
}

/// Some entry follows the sun.
pub open spec fn follows_sun(schedule: Seq<Schedule>) -> bool {
    exists|i: int| 0 <= i < schedule.len() && (#[trigger] schedule[i]).trigger() is Light
}

/// The mode in force: the persisted one, or the configured default where
/// none is persisted.
pub fn effective_mode(persisted: Option<Mode>, configured: Mode) -> (mode: Mode)
    ensures
        mode == match persisted {
            Some(kept) => kept,
            None => configured,
        },
{
    match persisted {
        Some(kept) => kept,
        None => configured,
    }
}

/// The whole configuration.
#[derive(Clone, Debug)]
pub struct Configuration {
    pub backend: Backend,
    pub mode: Mode,
    pub location: Option<Location>,
    pub presets: Vec<Preset>,
    pub schedule: Vec<Schedule>,
}

impl Default for Configuration {
    /// The configuration that is used where none is given: the X11
    /// backend, static mode, no location, no schedule, and the presets
    /// `day` at 6500 K and `night` at 4000 K.
    fn default() -> (config: Configuration)
        ensures
            config.is_default(),
    {
        let mut presets: Vec<Preset> = Vec::new();
        presets.push(Preset { name: "day".to_owned(), temperature: Temperature::new(6500) });
        presets.push(Preset { name: "night".to_owned(), temperature: Temperature::new(4000) });
        Configuration {
            backend: Backend::X11,
            mode: Mode::Static,
            location: None,
            presets,
            schedule: Vec::new(),
        }
    }
}

impl Configuration {
    /// The configuration is the one that is used where none is given.
    pub open spec fn is_default(&self) -> bool {
        &&& self.backend == Backend::X11
        &&& self.mode == Mode::Static
        &&& self.location is None
        &&& self.schedule@.len() == 0
        &&& self.presets@.len() == 2
        &&& self.presets@[0].name@ == "day"@
        &&& self.presets@[0].temperature == Temperature(6500)
        &&& self.presets@[1].name@ == "night"@
        &&& self.presets@[1].temperature == Temperature(4000)
    }

    /// What is wrong with the configuration, if anything: an entry that
    /// follows the sun without a location, or, failing that, an entry that
    /// names an unknown preset.
    pub open spec fn check(&self) -> Result<(), ConfigError> {
        if follows_sun(self.schedule@) && self.location is None {
            Err(ConfigError::MissingLocation)
        } else if !presets_known(self.schedule@, self.presets@) {
            Err(ConfigError::UnknownPreset)
        } else {
            Ok(())
        }
    }

    /// Whether some entry follows the sun.
    pub fn has_light_trigger(&self) -> (found: bool)
        ensures
            found == follows_sun(self.schedule@),
    {
        let mut i: usize = 0;
        while i < self.schedule.len()
            invariant
                i <= self.schedule.len(),
                forall|k: int| 0 <= k < i ==> !((#[trigger] self.schedule@[k]).trigger() is Light),
            decreases self.schedule.len() - i,
        {
            match self.schedule[i].get_trigger() {
                ScheduleTrigger::Light(_) => {
                    return true;
                },
                ScheduleTrigger::Time(_) => {},
            }
            i += 1;
        }
        false
    }

    /// Whether every entry that names a preset names a configured one.
    pub fn has_known_presets(&self) -> (known: bool)
        ensures
            known == presets_known(self.schedule@, self.presets@),
    {
        let mut i: usize = 0;
        while i < self.schedule.len()
            invariant
                i <= self.schedule.len(),
                forall|k: int|
                    0 <= k < i ==> (#[trigger] self.schedule@[k]).temperature_in(self.presets@) is Some,
            decreases self.schedule.len() - i,
        {
            if self.schedule[i].get_temperature(&self.presets).is_none() {
                return false;
            }
            i += 1;
        }
        true
    }

    /// Checks the configuration before it is used.
    pub fn validate(&self) -> (checked: Result<(), ConfigError>)
        ensures
            checked == self.check(),
    {
        if self.location.is_none() && self.has_light_trigger() {
            Err(ConfigError::MissingLocation)
        } else if !self.has_known_presets() {
            Err(ConfigError::UnknownPreset)
        } else {
            Ok(())
        }
    }
}

} // verus!
