//! Making a configuration from the fields that a configuration file gives,
//! and deciding what becomes of a file that is refused.

use vstd::prelude::*;
use crate::backends::{Backend, Temperature};
use crate::config::{
    entry_of,
    fields_fault,
    find_preset,
    follows_sun,
    parsed_trigger,
    preset_named,
    ConfigError,
    Configuration,
    Location,
    Mode,
    Preset,
    Schedule,
    ScheduleTrigger,
};

verus! {

/// The fields of a schedule entry as a file gives them.
#[derive(Clone, Debug)]
pub struct ScheduleFields {
    pub trigger: String,
    pub temperature: Option<Temperature>,
    pub preset: Option<String>,
}

/// The fields of a configuration as a file gives them.
#[derive(Clone, Debug)]
pub struct ConfigurationFields {
    pub backend: Backend,
    pub mode: Mode,
    pub location: Option<Location>,
    pub presets: Vec<Preset>,
    pub schedule: Vec<ScheduleFields>,
}

/// A configuration as it was loaded. Where the file was set aside for the
/// defaults, `set_aside` says what was wrong with it.
#[derive(Clone, Debug)]
pub struct Loaded {
    pub config: Configuration,
    pub set_aside: Option<ConfigError>,
}

/// The entry that the fields at position `i` make.
pub open spec fn entry_at(fields: Seq<ScheduleFields>, i: int) -> Result<Schedule, ConfigError> {
    entry_of(fields[i].trigger@, fields[i].temperature, fields[i].preset)
}

/// The entries that the fields make, in their order, or what is wrong with
/// the first that makes none.
pub open spec fn entries_of(fields: Seq<ScheduleFields>) -> Result<Seq<Schedule>, ConfigError>
    decreases fields.len(),
{
    if fields.len() == 0 {
        Ok(Seq::empty())
    } else {
        match entries_of(fields.drop_last()) {
            Err(error) => Err(error),
            Ok(front) => match entry_at(fields, fields.len() - 1) {
                Err(error) => Err(error),
                Ok(entry) => Ok(front.push(entry)),
            },
        }
    }
}

/// The outcome of reading entries, with the entries as a sequence.
pub open spec fn entries_view(entries: Result<Vec<Schedule>, ConfigError>) -> Result<
    Seq<Schedule>,
    ConfigError,
> {
    match entries {
        Ok(entries) => Ok(entries@),
        Err(error) => Err(error),
    }
}

/// What is wrong with a beginning of the fields is wrong with the whole.
pub proof fn lemma_refused_beginning(fields: Seq<ScheduleFields>, upto: int)
    requires
        0 <= upto <= fields.len(),
        entries_of(fields.take(upto)) is Err,
    ensures
        entries_of(fields) == entries_of(fields.take(upto)),
    decreases fields.len() - upto,
{
    if upto < fields.len() {
        let front = fields.drop_last();
        assert(front.take(upto) == fields.take(upto));
        lemma_refused_beginning(front, upto);
    } else {
        assert(fields.take(upto) == fields);
    }
}

/// The fields make entries exactly where each of them makes one, and then
/// one entry for each, in its place; else the error is that of the first
/// fields that make no entry.
pub proof fn lemma_entries_of(fields: Seq<ScheduleFields>)
    ensures
        entries_of(fields) is Ok <==> forall|i: int|
            0 <= i < fields.len() ==> #[trigger] entry_at(fields, i) is Ok,
        entries_of(fields) is Ok ==> entries_of(fields)->Ok_0.len() == fields.len() && forall|i: int|
            0 <= i < fields.len() ==> Ok::<Schedule, ConfigError>(entries_of(fields)->Ok_0[i])
                == #[trigger] entry_at(fields, i),
        entries_of(fields) is Err ==> exists|i: int|
            0 <= i < fields.len() && #[trigger] entry_at(fields, i) == Err::<Schedule, ConfigError>(
                entries_of(fields)->Err_0,
            ) && forall|j: int| 0 <= j < i ==> #[trigger] entry_at(fields, j) is Ok,
    decreases fields.len(),
{
    if fields.len() > 0 {
        let front = fields.drop_last();
        let last = fields.len() - 1;
        lemma_entries_of(front);
        assert forall|i: int| 0 <= i < front.len() implies #[trigger] entry_at(front, i) == entry_at(
            fields,
            i,
        ) by {
            assert(front[i] == fields[i]);
        }
        if entries_of(front) is Ok {
            assert forall|j: int| 0 <= j < last implies #[trigger] entry_at(fields, j) is Ok by {
                assert(entry_at(front, j) is Ok);
            }
            if entry_at(fields, last) is Ok {
                assert forall|i: int| 0 <= i < fields.len() implies Ok::<Schedule, ConfigError>(
                    entries_of(fields)->Ok_0[i],
                ) == #[trigger] entry_at(fields, i) by {
                    if i < last {
                        assert(Ok::<Schedule, ConfigError>(entries_of(front)->Ok_0[i]) == entry_at(
                            front,
                            i,
                        ));
                    }
                }
            } else {
                assert(entry_at(fields, last) == Err::<Schedule, ConfigError>(
                    entries_of(fields)->Err_0,
                ));
            }
        } else {
            let i = choose|i: int|
                0 <= i < front.len() && #[trigger] entry_at(front, i) == Err::<Schedule, ConfigError>(
                    entries_of(front)->Err_0,
                ) && forall|j: int| 0 <= j < i ==> #[trigger] entry_at(front, j) is Ok;
            assert(entry_at(fields, i) == Err::<Schedule, ConfigError>(entries_of(fields)->Err_0));
            assert forall|j: int| 0 <= j < i implies #[trigger] entry_at(fields, j) is Ok by {
                assert(entry_at(front, j) is Ok);
            }
        }
    }
}

/// Makes the entries of a schedule from their fields, in their order. The
/// first fields that make no entry end the reading with their error.
pub fn read_entries(fields: &Vec<ScheduleFields>) -> (entries: Result<Vec<Schedule>, ConfigError>)
    ensures
        entries_view(entries) == entries_of(fields@),
{
    let mut entries: Vec<Schedule> = Vec::new();
    let mut i: usize = 0;
    while i < fields.len()
        invariant
            i <= fields.len(),
            entries_of(fields@.take(i as int)) == Ok::<Seq<Schedule>, ConfigError>(entries@),
        decreases fields.len() - i,
    {
        let preset = match &fields[i].preset {
            Some(name) => Some(name.clone()),
            None => None,
        };
        proof {
            assert(fields@.take(i + 1).drop_last() == fields@.take(i as int));
            assert(fields@.take(i + 1)[i as int] == fields@[i as int]);
        }
        match Schedule::from_fields(fields[i].trigger.as_str(), fields[i].temperature, preset) {
            Err(error) => {
                proof {
                    lemma_refused_beginning(fields@, i + 1);
                }
                return Err(error);
            },
            Ok(entry) => {
                entries.push(entry);
            },
        }
        i += 1;
    }
    assert(fields@.take(fields.len() as int) == fields@);
    Ok(entries)
}

/// What is wrong with the two temperature fields at position `i`, if
/// anything.
pub open spec fn fault_at(fields: Seq<ScheduleFields>, i: int) -> Option<ConfigError> {
    fields_fault(fields[i].temperature, fields[i].preset)
}

/// What is wrong with the two temperature fields of the first entry that
/// gives both or neither, if there is such an entry.
pub open spec fn first_fault(fields: Seq<ScheduleFields>) -> Option<ConfigError>
    decreases fields.len(),
{
    if fields.len() == 0 {
        None
    } else {
        match first_fault(fields.drop_last()) {
            Some(error) => Some(error),
            None => fault_at(fields, fields.len() - 1),
        }
    }
}

/// The trigger at position `i` can be read and follows the sun.
pub open spec fn sun_at(fields: Seq<ScheduleFields>, i: int) -> bool {
    parsed_trigger(fields[i].trigger@) is Ok && parsed_trigger(fields[i].trigger@)->Ok_0 is Light
}

/// Some trigger can be read and follows the sun.
pub open spec fn wants_sun(fields: Seq<ScheduleFields>) -> bool {
    exists|i: int| 0 <= i < fields.len() && #[trigger] sun_at(fields, i)
}

/// The fields at position `i` name a preset that is not among `presets`.
pub open spec fn unknown_at(fields: Seq<ScheduleFields>, presets: Seq<Preset>, i: int) -> bool {
    fields[i].preset is Some && preset_named(presets, fields[i].preset->Some_0@) is None
}

/// Some fields name a preset that is not among `presets`.
pub open spec fn names_unknown(fields: Seq<ScheduleFields>, presets: Seq<Preset>) -> bool {
    exists|i: int| 0 <= i < fields.len() && #[trigger] unknown_at(fields, presets, i)
}

/// What is wrong with the temperature fields of a beginning is wrong with
/// those of the whole.
pub proof fn lemma_fault_beginning(fields: Seq<ScheduleFields>, upto: int)
    requires
        0 <= upto <= fields.len(),
        first_fault(fields.take(upto)) is Some,
    ensures
        first_fault(fields) == first_fault(fields.take(upto)),
    decreases fields.len() - upto,
{
    if upto < fields.len() {
        let front = fields.drop_last();
        assert(front.take(upto) == fields.take(upto));
        lemma_fault_beginning(front, upto);
    } else {
        assert(fields.take(upto) == fields);
    }
}

/// `first_fault` gives the fault of the first entry that has one, which is
/// that it gives both fields or neither; it gives none exactly where no
/// entry has one.
pub proof fn lemma_first_fault(fields: Seq<ScheduleFields>)
    ensures
        first_fault(fields) is None <==> forall|i: int|
            0 <= i < fields.len() ==> #[trigger] fault_at(fields, i) is None,
        first_fault(fields) is Some ==> exists|i: int|
            0 <= i < fields.len() && #[trigger] fault_at(fields, i) == first_fault(fields) && forall|j: int|
                0 <= j < i ==> #[trigger] fault_at(fields, j) is None,
        first_fault(fields) is Some ==> first_fault(fields)->Some_0 is BothTemperatureAndPreset
            || first_fault(fields)->Some_0 is NeitherTemperatureNorPreset,
    decreases fields.len(),
{
    if fields.len() > 0 {
        let front = fields.drop_last();
        let last = fields.len() - 1;
        lemma_first_fault(front);
        assert forall|i: int| 0 <= i < front.len() implies #[trigger] fault_at(front, i) == fault_at(
            fields,
            i,
        ) by {
            assert(front[i] == fields[i]);
        }
        if first_fault(front) is Some {
            let i = choose|i: int|
                0 <= i < front.len() && #[trigger] fault_at(front, i) == first_fault(front) && forall|j: int|
                    0 <= j < i ==> #[trigger] fault_at(front, j) is None;
            assert(fault_at(fields, i) == first_fault(fields));
            assert forall|j: int| 0 <= j < i implies #[trigger] fault_at(fields, j) is None by {
                assert(fault_at(front, j) is None);
            }
        } else {
            assert forall|j: int| 0 <= j < last implies #[trigger] fault_at(fields, j) is None by {
                assert(fault_at(front, j) is None);
            }
            if fault_at(fields, last) is Some {
                assert(fault_at(fields, last) == first_fault(fields));
            }
        }
    }
}

/// Where no entry gives both fields or neither, the only thing that keeps
/// the fields from making entries is a trigger that cannot be read.
pub proof fn lemma_unreadable_trigger(fields: Seq<ScheduleFields>)
    requires
        first_fault(fields) is None,
        entries_of(fields) is Err,
    ensures
        !entries_of(fields)->Err_0.fatal(),
        exists|i: int|
            0 <= i < fields.len() && parsed_trigger((#[trigger] fields[i]).trigger@) == Err::<
                ScheduleTrigger,
                ConfigError,
            >(entries_of(fields)->Err_0),
{
    lemma_entries_of(fields);
    lemma_first_fault(fields);
    let i = choose|i: int|
        0 <= i < fields.len() && #[trigger] entry_at(fields, i) == Err::<Schedule, ConfigError>(
            entries_of(fields)->Err_0,
        ) && forall|j: int| 0 <= j < i ==> #[trigger] entry_at(fields, j) is Ok;
    assert(fault_at(fields, i) is None);
    assert(parsed_trigger(fields[i].trigger@) == Err::<ScheduleTrigger, ConfigError>(
        entries_of(fields)->Err_0,
    ));
}

/// The fault of the first entry that gives both temperature fields or
/// neither.
pub fn find_fault(fields: &Vec<ScheduleFields>) -> (fault: Option<ConfigError>)
    ensures
        fault == first_fault(fields@),
{
    let mut i: usize = 0;
    while i < fields.len()
        invariant
            i <= fields.len(),
            first_fault(fields@.take(i as int)) is None,
        decreases fields.len() - i,
    {
        proof {
            assert(fields@.take(i + 1).drop_last() == fields@.take(i as int));
            assert(fields@.take(i + 1)[i as int] == fields@[i as int]);
        }
        let both = fields[i].temperature.is_some() && fields[i].preset.is_some();
        let neither = fields[i].temperature.is_none() && fields[i].preset.is_none();
        if both || neither {
            proof {
                lemma_fault_beginning(fields@, i + 1);
            }
            return Some(
                if both {
                    ConfigError::BothTemperatureAndPreset
                } else {
                    ConfigError::NeitherTemperatureNorPreset
                },
            );
        }
        i += 1;
    }
    assert(fields@.take(fields.len() as int) == fields@);
    None
}

/// Whether some trigger can be read and follows the sun.
pub fn has_sun_trigger(fields: &Vec<ScheduleFields>) -> (found: bool)
    ensures
        found == wants_sun(fields@),
{
    let mut i: usize = 0;
    while i < fields.len()
        invariant
            i <= fields.len(),
            forall|k: int| 0 <= k < i ==> !#[trigger] sun_at(fields@, k),
        decreases fields.len() - i,
    {
        match ScheduleTrigger::parse(fields[i].trigger.as_str()) {
            Ok(ScheduleTrigger::Light(_)) => {
                assert(sun_at(fields@, i as int));
                return true;
            },
            _ => {},
        }
        i += 1;
    }
    false
}

/// Whether some fields name a preset that is not among `presets`.
pub fn has_unknown_preset(fields: &Vec<ScheduleFields>, presets: &Vec<Preset>) -> (found: bool)
    ensures
        found == names_unknown(fields@, presets@),
{
    let mut i: usize = 0;
    while i < fields.len()
        invariant
            i <= fields.len(),
            forall|k: int| 0 <= k < i ==> !#[trigger] unknown_at(fields@, presets@, k),
        decreases fields.len() - i,
    {
        match &fields[i].preset {
            Some(name) => {
                if find_preset(presets, name).is_none() {
                    assert(unknown_at(fields@, presets@, i as int));
                    return true;
                }
            },
            None => {},
        }
        i += 1;
    }
    false
}

impl ConfigurationFields {
    /// What is wrong with the fields, if anything. What ends the loading
    /// comes first: an entry that gives both a temperature and a preset or
    /// neither, the first such entry deciding; then a trigger that follows
    /// the sun where there is no location; then the name of a preset that
    /// is not configured. Only where none of these is found does a trigger
    /// that cannot be read count, the first of them deciding.
    pub open spec fn refusal(&self) -> Option<ConfigError> {
        if first_fault(self.schedule@) is Some {
            first_fault(self.schedule@)
        } else if wants_sun(self.schedule@) && self.location is None {
            Some(ConfigError::MissingLocation)
        } else if names_unknown(self.schedule@, self.presets@) {
            Some(ConfigError::UnknownPreset)
        } else {
            match entries_of(self.schedule@) {
                Err(error) => Some(error),
                Ok(_) => None,
            }
        }
    }

    /// The configuration holds what the fields give.
    pub open spec fn made(&self, config: &Configuration) -> bool {
        &&& config.backend == self.backend
        &&& config.mode == self.mode
        &&& config.location == self.location
        &&& config.presets@ == self.presets@
        &&& Ok::<Seq<Schedule>, ConfigError>(config.schedule@) == entries_of(self.schedule@)
    }
}

/// What ends the loading is never hidden by a trigger that cannot be read:
/// fields with an entry that gives both temperature fields or neither, with
/// a trigger that follows the sun and no location, or with the name of an
/// unknown preset are refused with a fatal error, and that of the
/// temperature fields comes before the others.
pub proof fn lemma_fatal_comes_first(fields: &ConfigurationFields)
    ensures
        first_fault(fields.schedule@) is Some ==> fields.refusal() == first_fault(fields.schedule@),
        first_fault(fields.schedule@) is Some || (wants_sun(fields.schedule@) && fields.location is None)
            || names_unknown(fields.schedule@, fields.presets@) ==> fields.refusal() is Some
            && fields.refusal()->Some_0.fatal(),
        fields.refusal() is Some && !fields.refusal()->Some_0.fatal() ==> first_fault(fields.schedule@)
            is None && !(wants_sun(fields.schedule@) && fields.location is None) && !names_unknown(
            fields.schedule@,
            fields.presets@,
        ),
{
    lemma_first_fault(fields.schedule@);
}

/// A configuration made from fields that are not refused is in order: it
/// passes the check that is made of it before it is used.
pub proof fn lemma_made_is_in_order(fields: &ConfigurationFields, config: &Configuration)
    requires
        fields.refusal() is None,
        fields.made(config),
    ensures
        config.check() is Ok,
{
    let entries = config.schedule@;
    lemma_entries_of(fields.schedule@);
    assert forall|i: int| 0 <= i < entries.len() implies (#[trigger] entries[i]).temperature_in(
        config.presets@,
    ) is Some by {
        assert(Ok::<Schedule, ConfigError>(entries[i]) == entry_at(fields.schedule@, i));
        assert(!unknown_at(fields.schedule@, fields.presets@, i));
    }
    if follows_sun(entries) {
        let i = choose|i: int| 0 <= i < entries.len() && (#[trigger] entries[i]).trigger() is Light;
        assert(Ok::<Schedule, ConfigError>(entries[i]) == entry_at(fields.schedule@, i));
        assert(sun_at(fields.schedule@, i));
    }
}

impl Configuration {
    /// Makes a configuration from the fields of a file, or says what is
    /// wrong with them. A configuration that is made is in order.
    pub fn from_fields(fields: ConfigurationFields) -> (config: Result<Configuration, ConfigError>)
        ensures
            match fields.refusal() {
                Some(error) => config is Err && config->Err_0 == error,
                None => config is Ok && fields.made(&config->Ok_0) && config->Ok_0.check() is Ok,
            },
    {
        if let Some(error) = find_fault(&fields.schedule) {
            return Err(error);
        }
        if fields.location.is_none() && has_sun_trigger(&fields.schedule) {
            return Err(ConfigError::MissingLocation);
        }
        if has_unknown_preset(&fields.schedule, &fields.presets) {
            return Err(ConfigError::UnknownPreset);
        }
        let schedule = match read_entries(&fields.schedule) {
            Ok(schedule) => schedule,
            Err(error) => {
                return Err(error);
            },
        };
        let ghost given = fields;
        let config = Configuration {
            backend: fields.backend,
            mode: fields.mode,
            location: fields.location,
            presets: fields.presets,
            schedule,
        };
        proof {
            lemma_made_is_in_order(&given, &config);
        }
        Ok(config)
    }

    /// Loads a configuration from the fields that were read from a file,
    /// where `None` stands for a file that could not be read as fields. Such
    /// a file gives the defaults. Fields that are refused end the loading
    /// where the error is fatal, and give the defaults where it is not:
    /// that is where nothing is wrong but a trigger that cannot be read.
    pub fn load(fields: Option<ConfigurationFields>) -> (loaded: Result<Loaded, ConfigError>)
        ensures
            match fields {
                None => loaded is Ok && loaded->Ok_0.config.is_default() && loaded->Ok_0.set_aside
                    is None,
                Some(fields) => match fields.refusal() {
                    None => loaded is Ok && fields.made(&loaded->Ok_0.config) && loaded->Ok_0.config.check()
                        is Ok && loaded->Ok_0.set_aside is None,
                    Some(error) => if error.fatal() {
                        loaded is Err && loaded->Err_0 == error
                    } else {
                        loaded is Ok && loaded->Ok_0.config.is_default() && loaded->Ok_0.set_aside
                            == Some(error)
                    },
                },
            },
    {
        match fields {
            None => Ok(Loaded { config: Configuration::default(), set_aside: None }),
            Some(fields) => match Configuration::from_fields(fields) {
                Ok(config) => Ok(Loaded { config, set_aside: None }),
                Err(error) => {
                    if error.is_fatal() {
                        Err(error)
                    } else {
                        Ok(Loaded { config: Configuration::default(), set_aside: Some(error) })
                    }
                },
            },
        }
    }
}

} // verus!
