//! What each command comes to, decided from the arguments that were given.

use vstd::prelude::*;
use vstd::string::*;
use crate::backends::Temperature;
use crate::config::{find_preset, preset_named, Configuration, Mode, Preset};
use crate::lifecycle::{DaemonEvent, Identity};
use crate::text::{digits_of, same_text};

verus! {

/// Why a command cannot be carried out.
#[derive(Clone, Copy, Debug, PartialEq, Eq, Structural)]
pub enum CliError {
    /// The `set` command was given nothing to set.
    NoArgument,
    /// The command was given no subcommand that it knows.
    NoSubcommand,
}

impl CliError {
    /// What is wrong, in words.
    pub open spec fn text(&self) -> Seq<char> {
        match self {
            CliError::NoArgument => "No argument found"@,
            CliError::NoSubcommand => "No subcommand provided"@,
        }
    }

    /// What is wrong, in words.
    pub fn message(&self) -> (message: String)
        ensures
            message@ == self.text(),
    {
        match self {
            CliError::NoArgument => "No argument found".to_owned(),
            CliError::NoSubcommand => "No subcommand provided".to_owned(),
        }
    }
}

/// What the `set` command is to do.
#[derive(Clone, Copy, Debug, PartialEq, Eq, Structural)]
pub enum SetAction {
    /// Apply the temperature through the backend, then persist the static
    /// mode, so that a running daemon leaves the temperature alone.
    Apply(Temperature),
    /// Persist the mode.
    SwitchMode(Mode),
    /// The preset that was named is not configured: nothing is applied.
    Nothing,
}

/// What `set` comes to: a temperature that is given is applied; else the
/// temperature of the preset that is named, where it is configured; else
/// the mode that is given is switched to; a preset that is not configured
/// has no effect.
pub open spec fn set_action(
    temperature: Option<Temperature>,
    preset: Option<Seq<char>>,
    mode: Option<Mode>,
    presets: Seq<Preset>,
) -> Result<SetAction, CliError> {
    if temperature is Some {
        Ok(SetAction::Apply(temperature.unwrap()))
    } else if preset is Some && preset_named(presets, preset.unwrap()) is Some {
        Ok(SetAction::Apply(preset_named(presets, preset.unwrap()).unwrap()))
    } else if mode is Some {
        Ok(SetAction::SwitchMode(mode.unwrap()))
    } else if preset is Some {
        Ok(SetAction::Nothing)
    } else {
        Err(CliError::NoArgument)
    }
}

/// The view of an optional name.
pub open spec fn name_view(name: Option<String>) -> Option<Seq<char>> {
    match name {
        Some(name) => Some(name@),
        None => None,
    }
}

/// Decides what the `set` command does with its arguments.
pub fn handle_set_subcommand(
    temperature: Option<Temperature>,
    preset: Option<String>,
    mode: Option<Mode>,
    config: &Configuration,
) -> (action: Result<SetAction, CliError>)
    ensures
        action == set_action(temperature, name_view(preset), mode, config.presets@),
{
    if let Some(value) = temperature {
        return Ok(SetAction::Apply(value));
    }
    let named = preset.is_some();
    if let Some(name) = preset {
        if let Some(value) = find_preset(&config.presets, &name) {
            return Ok(SetAction::Apply(value));
        }
    }
    if let Some(value) = mode {
        return Ok(SetAction::SwitchMode(value));
    }
    if named {
        Ok(SetAction::Nothing)
    } else {
        Err(CliError::NoArgument)
    }
}

/// The event that a `daemon` subcommand stands for.
pub open spec fn daemon_event(subcommand: Option<Seq<char>>, background: bool) -> Result<DaemonEvent, CliError> {
    if subcommand == Some("start"@) {
        Ok(DaemonEvent::Start { detach: background })
    } else if subcommand == Some("stop"@) {
        Ok(DaemonEvent::Stop)
    } else {
        Err(CliError::NoSubcommand)
    }
}

/// The view of an optional text.
pub open spec fn text_view(text: Option<&str>) -> Option<Seq<char>> {
    match text {
        Some(text) => Some(text@),
        None => None,
    }
}

/// Decides what the `daemon` command asks of the daemon: `start`, in the
/// background or not, or `stop`.
pub fn handle_daemon_subcommand(subcommand: Option<&str>, background: bool) -> (event: Result<
    DaemonEvent,
    CliError,
>)
    ensures
        event == daemon_event(text_view(subcommand), background),
{
    match subcommand {
        Some(name) => {
            if same_text(name, "start") {
                Ok(DaemonEvent::Start { detach: background })
            } else if same_text(name, "stop") {
                Ok(DaemonEvent::Stop)
            } else {
                Err(CliError::NoSubcommand)
            }
        },
        None => Err(CliError::NoSubcommand),
    }
}

/// The line that lists a preset: its name, a colon, its kelvin and `K`.
pub open spec fn preset_line(preset: Preset) -> Seq<char> {
    preset.name@ + ": "@ + digits_of(preset.temperature.0 as nat) + "K"@
}

/// The lines that list the presets, in their order.
pub open spec fn preset_lines(presets: Seq<Preset>) -> Seq<Seq<char>> {
    presets.map_values(|preset: Preset| preset_line(preset))
}

/// The lines of a list of texts.
pub open spec fn lines_view(lines: Seq<String>) -> Seq<Seq<char>> {
    lines.map_values(|line: String| line@)
}

/// Decides what the `list` command prints: for `presets`, a line for each
/// preset.
pub fn handle_list_subcommand(subcommand: Option<&str>, config: &Configuration) -> (lines: Result<
    Vec<String>,
    CliError,
>)
    ensures
        text_view(subcommand) == Some("presets"@) ==> lines is Ok && lines_view(lines.unwrap()@)
            == preset_lines(config.presets@),
        text_view(subcommand) != Some("presets"@) ==> lines == Err::<Vec<String>, CliError>(
            CliError::NoSubcommand,
        ),
{
    match subcommand {
        Some(name) => {
            if !same_text(name, "presets") {
                return Err(CliError::NoSubcommand);
            }
        },
        None => {
            return Err(CliError::NoSubcommand);
        },
    }
    let mut lines: Vec<String> = Vec::new();
    let mut i: usize = 0;
    while i < config.presets.len()
        invariant
            i <= config.presets.len(),
            lines@.len() == i,
            forall|k: int| 0 <= k < i ==> (#[trigger] lines@[k])@ == preset_line(config.presets@[k]),
        decreases config.presets.len() - i,
    {
        let preset = &config.presets[i];
        let mut line = preset.name.clone();
        line.append(": ");
        line.append(preset.temperature.to_text().as_str());
        line.append("K");
        lines.push(line);
        i += 1;
    }
    assert(lines_view(lines@) =~= preset_lines(config.presets@));
    Ok(lines)
}

/// What is said of the daemon.
pub open spec fn daemon_report(identity: Identity) -> Seq<char> {
    match identity {
        Identity::Live(pid) => "Daemon active (pid: "@ + digits_of(pid.0 as nat) + ")"@,
        _ => "Daemon inactive"@,
    }
}

/// Decides what the `info` command prints of the daemon.
pub fn handle_info_subcommand(identity: Identity) -> (report: String)
    ensures
        report@ == daemon_report(identity),
{
    match identity {
        Identity::Live(pid) => {
            let mut report = "Daemon active (pid: ".to_owned();
            report.append(pid.to_text().as_str());
            report.append(")");
            report
        },
        _ => "Daemon inactive".to_owned(),
    }
}

} // verus!
