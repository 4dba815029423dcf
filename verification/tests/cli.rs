use bluegone::backends::Temperature;
use bluegone::cli::{
    handle_daemon_subcommand, handle_info_subcommand, handle_list_subcommand, handle_set_subcommand,
    CliError, SetAction,
};
use bluegone::config::{Configuration, Mode, Preset};
use bluegone::lifecycle::{DaemonEvent, Identity};
use bluegone::Pid;

#[test]
fn set_applies_a_given_temperature() {
    let config = Configuration::default();
    assert_eq!(
        handle_set_subcommand(Some(Temperature::new(5000)), None, None, &config),
        Ok(SetAction::Apply(Temperature::new(5000)))
    );
    assert_eq!(
        handle_set_subcommand(Some(Temperature::new(5000)), Some("night".to_string()), Some(Mode::Dynamic), &config),
        Ok(SetAction::Apply(Temperature::new(5000)))
    );
}

#[test]
fn set_applies_a_named_preset() {
    let config = Configuration::default();
    assert_eq!(
        handle_set_subcommand(None, Some("night".to_string()), None, &config),
        Ok(SetAction::Apply(Temperature::new(4000)))
    );
    assert_eq!(
        handle_set_subcommand(None, Some("day".to_string()), Some(Mode::Dynamic), &config),
        Ok(SetAction::Apply(Temperature::new(6500)))
    );
}

#[test]
fn set_switches_the_mode() {
    let config = Configuration::default();
    assert_eq!(handle_set_subcommand(None, None, Some(Mode::Dynamic), &config), Ok(SetAction::SwitchMode(Mode::Dynamic)));
    assert_eq!(
        handle_set_subcommand(None, Some("dusk".to_string()), Some(Mode::Static), &config),
        Ok(SetAction::SwitchMode(Mode::Static))
    );
}

#[test]
fn set_with_an_unknown_preset_has_no_effect() {
    let config = Configuration::default();
    assert_eq!(handle_set_subcommand(None, Some("dusk".to_string()), None, &config), Ok(SetAction::Nothing));
}

#[test]
fn set_with_nothing_to_set_fails() {
    let config = Configuration::default();
    assert_eq!(handle_set_subcommand(None, None, None, &config), Err(CliError::NoArgument));
    assert_eq!(CliError::NoArgument.message(), "No argument found");
}

#[test]
fn daemon_subcommands_become_events() {
    assert_eq!(handle_daemon_subcommand(Some("start"), false), Ok(DaemonEvent::Start { detach: false }));
    assert_eq!(handle_daemon_subcommand(Some("start"), true), Ok(DaemonEvent::Start { detach: true }));
    assert_eq!(handle_daemon_subcommand(Some("stop"), true), Ok(DaemonEvent::Stop));
    assert_eq!(handle_daemon_subcommand(Some("restart"), false), Err(CliError::NoSubcommand));
    assert_eq!(handle_daemon_subcommand(None, false), Err(CliError::NoSubcommand));
    assert_eq!(CliError::NoSubcommand.message(), "No subcommand provided");
}

#[test]
fn presets_are_listed_one_to_a_line() {
    let mut config = Configuration::default();
    config.presets.push(Preset { name: "candle".to_string(), temperature: Temperature::new(1900) });
    assert_eq!(
        handle_list_subcommand(Some("presets"), &config),
        Ok(vec!["day: 6500K".to_string(), "night: 4000K".to_string(), "candle: 1900K".to_string()])
    );
    assert_eq!(handle_list_subcommand(Some("modes"), &config), Err(CliError::NoSubcommand));
    assert_eq!(handle_list_subcommand(None, &config), Err(CliError::NoSubcommand));
}

#[test]
fn info_tells_whether_the_daemon_is_active() {
    assert_eq!(handle_info_subcommand(Identity::Live(Pid(4711))), "Daemon active (pid: 4711)");
    assert_eq!(handle_info_subcommand(Identity::Stale(Pid(4711))), "Daemon inactive");
    assert_eq!(handle_info_subcommand(Identity::Absent), "Daemon inactive");
}
