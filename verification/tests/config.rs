use bluegone::backends::{get_backend_from_str, Backend, Temperature};
use bluegone::config::{
    effective_mode, find_preset, ConfigError, Configuration, Location, Mode, Preset, ResolveError,
    Schedule, ScheduleLightTrigger, ScheduleTrigger, SunTimes,
};
use bluegone::time::TimeOfDay;
use bluegone::utils::RemoveSeconds;
use bluegone::{ParseError, Pid, StateFileName};

fn at(hour: u32, minute: u32) -> TimeOfDay {
    TimeOfDay::from_hm(hour, minute).unwrap()
}

#[test]
fn entry_with_both_temperature_and_preset_is_refused() {
    let entry = Schedule::from_fields("08:00", Some(Temperature::new(6500)), Some("day".to_string()));
    assert!(matches!(entry, Err(ConfigError::BothTemperatureAndPreset)));
    assert_eq!(
        ConfigError::BothTemperatureAndPreset.message(),
        "Cannot have both temperature and preset fields"
    );
}

#[test]
fn entry_with_neither_temperature_nor_preset_is_refused() {
    let entry = Schedule::from_fields("08:00", None, None);
    assert!(matches!(entry, Err(ConfigError::NeitherTemperatureNorPreset)));
    assert_eq!(
        ConfigError::NeitherTemperatureNorPreset.message(),
        "Must have either temperature or preset field"
    );
}

#[test]
fn entry_with_a_temperature_is_made() {
    let entry = Schedule::from_fields("08:00", Some(Temperature::new(6500)), None).unwrap();
    assert!(matches!(
        entry,
        Schedule::Temperature { trigger: ScheduleTrigger::Time(time), temperature }
            if time == at(8, 0) && temperature == Temperature::new(6500)
    ));
}

#[test]
fn entry_with_a_preset_is_made() {
    let entry = Schedule::from_fields("sunset", None, Some("night".to_string())).unwrap();
    assert!(matches!(
        entry,
        Schedule::Preset { trigger: ScheduleTrigger::Light(ScheduleLightTrigger::Sunset), ref preset }
            if preset == "night"
    ));
}

#[test]
fn entry_with_a_bad_trigger_is_refused() {
    assert!(matches!(
        Schedule::from_fields("25:00", Some(Temperature::new(6500)), None),
        Err(ConfigError::InvalidTimeFormat)
    ));
    assert!(matches!(
        Schedule::from_fields("noon", Some(Temperature::new(6500)), None),
        Err(ConfigError::InvalidTrigger)
    ));
}

#[test]
fn both_or_neither_field_is_found_before_a_bad_trigger() {
    assert!(matches!(
        Schedule::from_fields("noon", Some(Temperature::new(6500)), Some("day".to_string())),
        Err(ConfigError::BothTemperatureAndPreset)
    ));
    assert!(matches!(
        Schedule::from_fields("25:00", None, None),
        Err(ConfigError::NeitherTemperatureNorPreset)
    ));
}

#[test]
fn triggers_are_times_or_light_events() {
    assert_eq!(ScheduleTrigger::parse("08:00"), Ok(ScheduleTrigger::Time(at(8, 0))));
    assert_eq!(ScheduleTrigger::parse("23:59"), Ok(ScheduleTrigger::Time(at(23, 59))));
    assert_eq!(ScheduleTrigger::parse("00:00"), Ok(ScheduleTrigger::Time(TimeOfDay { secs: 0, frac: 0 })));
    assert_eq!(ScheduleTrigger::parse("sunset"), Ok(ScheduleTrigger::Light(ScheduleLightTrigger::Sunset)));
    assert_eq!(ScheduleTrigger::parse("sunrise"), Ok(ScheduleTrigger::Light(ScheduleLightTrigger::Sunrise)));
}

#[test]
fn times_that_do_not_exist_are_refused() {
    assert_eq!(ScheduleTrigger::parse("24:00"), Err(ConfigError::InvalidTimeFormat));
    assert_eq!(ScheduleTrigger::parse("12:60"), Err(ConfigError::InvalidTimeFormat));
    assert_eq!(ScheduleTrigger::parse("99:99"), Err(ConfigError::InvalidTimeFormat));
}

#[test]
fn other_texts_are_no_triggers() {
    for text in ["", "8:00", "08:0", "08:000", "08-00", "0a:00", "Sunset", "sunset ", "midnight", "08:00:00"] {
        assert_eq!(ScheduleTrigger::parse(text), Err(ConfigError::InvalidTrigger));
    }
}

#[test]
fn fixed_trigger_resolves_to_its_minute() {
    let trigger = ScheduleTrigger::Time(TimeOfDay { secs: 3600 + 59, frac: 12 });
    assert_eq!(trigger.get_time(&None, &None), Ok(at(1, 0)));
}

#[test]
fn light_trigger_needs_a_location() {
    let sun = Some(SunTimes { sunrise: at(6, 0), sunset: at(19, 0) });
    let trigger = ScheduleTrigger::Light(ScheduleLightTrigger::Sunrise);
    assert_eq!(trigger.get_time(&None, &sun), Err(ResolveError::MissingLocation));
    assert_eq!(trigger.get_time(&None, &None), Err(ResolveError::MissingLocation));
}

#[test]
fn light_trigger_needs_sun_times() {
    let location = Some(Location { latitude: 0, longitude: 0 });
    let trigger = ScheduleTrigger::Light(ScheduleLightTrigger::Sunrise);
    assert_eq!(trigger.get_time(&location, &None), Err(ResolveError::NoSunTimes));
}

#[test]
fn light_trigger_resolves_to_the_minute_of_its_event() {
    let location = Some(Location { latitude: 0, longitude: 0 });
    let sun = SunTimes {
        sunrise: TimeOfDay { secs: 6 * 3600 + 30 * 60 + 29, frac: 1 },
        sunset: TimeOfDay { secs: 18 * 3600 + 45 * 60 + 1, frac: 0 },
    };
    assert_eq!(ScheduleTrigger::Light(ScheduleLightTrigger::Sunrise).get_time(&location, &Some(sun)), Ok(at(6, 30)));
    assert_eq!(ScheduleTrigger::Light(ScheduleLightTrigger::Sunset).get_time(&location, &Some(sun)), Ok(at(18, 45)));
    assert_eq!(ScheduleLightTrigger::Sunset.get_time(&sun), at(18, 45));
}

#[test]
fn entry_gives_its_trigger_time_and_temperature() {
    let presets = vec![
        Preset { name: "day".to_string(), temperature: Temperature::new(6500) },
        Preset { name: "day".to_string(), temperature: Temperature::new(1) },
    ];
    let direct = Schedule::Temperature { trigger: ScheduleTrigger::Time(at(8, 0)), temperature: Temperature::new(5000) };
    let named = Schedule::Preset { trigger: ScheduleTrigger::Time(at(9, 0)), preset: "day".to_string() };
    let unknown = Schedule::Preset { trigger: ScheduleTrigger::Time(at(9, 0)), preset: "dusk".to_string() };
    assert_eq!(direct.get_temperature(&presets), Some(Temperature::new(5000)));
    assert_eq!(named.get_temperature(&presets), Some(Temperature::new(6500)));
    assert_eq!(unknown.get_temperature(&presets), None);
    assert_eq!(*named.get_trigger(), ScheduleTrigger::Time(at(9, 0)));
    assert_eq!(named.get_time(&None, &None), Ok(at(9, 0)));
}

#[test]
fn first_preset_of_a_name_is_found() {
    let presets = vec![
        Preset { name: "night".to_string(), temperature: Temperature::new(4000) },
        Preset { name: "day".to_string(), temperature: Temperature::new(6500) },
        Preset { name: "night".to_string(), temperature: Temperature::new(3000) },
    ];
    assert_eq!(find_preset(&presets, &"night".to_string()), Some(Temperature::new(4000)));
    assert_eq!(find_preset(&presets, &"day".to_string()), Some(Temperature::new(6500)));
    assert_eq!(find_preset(&presets, &"Day".to_string()), None);
    assert_eq!(find_preset(&vec![], &"day".to_string()), None);
}

#[test]
fn default_configuration_has_day_and_night() {
    let config = Configuration::default();
    assert_eq!(config.backend, Backend::X11);
    assert_eq!(config.mode, Mode::Static);
    assert_eq!(config.location, None);
    assert!(config.schedule.is_empty());
    assert_eq!(config.presets.len(), 2);
    assert_eq!(config.presets[0].name, "day");
    assert_eq!(config.presets[0].temperature, Temperature::new(6500));
    assert_eq!(config.presets[1].name, "night");
    assert_eq!(config.presets[1].temperature, Temperature::new(4000));
    assert_eq!(Mode::default(), Mode::Static);
    assert_eq!(Backend::default(), Backend::X11);
}

#[test]
fn validation_wants_a_location_for_light_triggers() {
    let mut config = Configuration::default();
    config.schedule.push(Schedule::Preset {
        trigger: ScheduleTrigger::Light(ScheduleLightTrigger::Sunset),
        preset: "night".to_string(),
    });
    assert!(config.has_light_trigger());
    assert_eq!(config.validate(), Err(ConfigError::MissingLocation));
    config.location = Some(Location { latitude: 48_137_000, longitude: 11_575_000 });
    assert_eq!(config.validate(), Ok(()));
}

#[test]
fn validation_wants_known_presets() {
    let mut config = Configuration::default();
    assert_eq!(config.validate(), Ok(()));
    assert!(!config.has_light_trigger());
    config.schedule.push(Schedule::Preset { trigger: ScheduleTrigger::Time(at(8, 0)), preset: "dawn".to_string() });
    assert!(!config.has_known_presets());
    assert_eq!(config.validate(), Err(ConfigError::UnknownPreset));
}

#[test]
fn missing_location_is_reported_before_an_unknown_preset() {
    let mut config = Configuration::default();
    config.schedule.push(Schedule::Preset {
        trigger: ScheduleTrigger::Light(ScheduleLightTrigger::Sunrise),
        preset: "dawn".to_string(),
    });
    assert_eq!(config.validate(), Err(ConfigError::MissingLocation));
}

#[test]
fn persisted_mode_wins_over_the_configured_one() {
    assert_eq!(effective_mode(Some(Mode::Dynamic), Mode::Static), Mode::Dynamic);
    assert_eq!(effective_mode(Some(Mode::Static), Mode::Dynamic), Mode::Static);
    assert_eq!(effective_mode(None, Mode::Dynamic), Mode::Dynamic);
    assert_eq!(effective_mode(None, Mode::Static), Mode::Static);
}

#[test]
fn modes_are_read_in_any_case() {
    assert_eq!(Mode::try_from("dynamic".to_string()), Ok(Mode::Dynamic));
    assert_eq!(Mode::try_from("STATIC".to_string()), Ok(Mode::Static));
    assert_eq!(Mode::try_from("Dynamic".to_string()), Ok(Mode::Dynamic));
    assert_eq!(Mode::try_from("dynamic ".to_string()), Err(ParseError::NoSuchMode));
    assert_eq!(Mode::try_from("".to_string()), Err(ParseError::NoSuchMode));
    assert_eq!(ParseError::NoSuchMode.message(), "No such mode");
}

#[test]
fn modes_are_written_in_small_letters_and_read_back() {
    assert_eq!(Mode::Static.to_text(), "static");
    assert_eq!(Mode::Dynamic.to_text(), "dynamic");
    for mode in [Mode::Static, Mode::Dynamic] {
        assert_eq!(Mode::try_from(mode.to_text()), Ok(mode));
    }
}

#[test]
fn backends_are_read_in_any_case() {
    assert_eq!(Backend::try_from("tty"), Ok(Backend::Tty));
    assert_eq!(Backend::try_from("X11"), Ok(Backend::X11));
    assert_eq!(Backend::try_from("Tty"), Ok(Backend::Tty));
    assert_eq!(Backend::try_from("wayland"), Err(ParseError::InvalidBackend));
    assert_eq!(get_backend_from_str("x11"), Ok(Backend::X11));
    assert_eq!(get_backend_from_str("TTY"), Ok(Backend::Tty));
    assert_eq!(get_backend_from_str(""), Err(ParseError::InvalidBackend));
    assert_eq!(ParseError::InvalidBackend.message(), "Invalid backend");
}

#[test]
fn state_files_have_their_names() {
    assert_eq!(<Pid as StateFileName>::name(), "pid");
    assert_eq!(<Mode as StateFileName>::name(), "mode");
    assert_eq!(<Temperature as StateFileName>::name(), "temperature");
}

#[test]
fn seconds_are_removed_down_to_the_minute() {
    assert_eq!(TimeOfDay { secs: 86_399, frac: 1_999_999_999 }.remove_seconds(), at(23, 59));
    assert_eq!(TimeOfDay { secs: 59, frac: 0 }.remove_seconds(), TimeOfDay { secs: 0, frac: 0 });
    assert_eq!(TimeOfDay { secs: 60, frac: 7 }.remove_seconds(), TimeOfDay { secs: 60, frac: 0 });
    assert_eq!(at(12, 34).remove_seconds(), at(12, 34));
}

#[test]
fn times_are_made_from_hour_and_minute() {
    assert_eq!(TimeOfDay::from_hm(8, 30), Some(TimeOfDay { secs: 30_600, frac: 0 }));
    assert_eq!(TimeOfDay::from_hm(23, 59), Some(TimeOfDay { secs: 86_340, frac: 0 }));
    assert_eq!(TimeOfDay::from_hm(24, 0), None);
    assert_eq!(TimeOfDay::from_hm(0, 60), None);
}

#[test]
fn times_are_ordered_by_seconds_then_fraction() {
    let a = TimeOfDay { secs: 5, frac: 9 };
    let b = TimeOfDay { secs: 6, frac: 0 };
    let c = TimeOfDay { secs: 6, frac: 1 };
    assert!(a.lt(&b) && b.lt(&c) && a.lt(&c));
    assert!(!b.lt(&a) && !b.lt(&b));
    assert!(a.le(&a) && a.le(&b) && !c.le(&b));
}

#[test]
fn wait_for_the_next_minute_is_counted_in_nanoseconds() {
    assert_eq!(at(10, 0).until_next_minute(), 60_000_000_000);
    assert_eq!(TimeOfDay { secs: 59, frac: 0 }.until_next_minute(), 1_000_000_000);
    assert_eq!(TimeOfDay { secs: 86_399, frac: 999_999_999 }.until_next_minute(), 1);
    assert_eq!(TimeOfDay { secs: 30, frac: 500_000_000 }.until_next_minute(), 29_500_000_000);
    assert_eq!(TimeOfDay { secs: 59, frac: 1_500_000_000 }.until_next_minute(), 0);
}
