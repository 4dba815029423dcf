use bluegone::backends::{Backend, Temperature};
use bluegone::config::{
    ConfigError, Configuration, Location, Mode, Preset, Schedule, ScheduleLightTrigger,
    ScheduleTrigger, SunTimes,
};
use bluegone::lifecycle::{
    find_process_by_id, probe_identity, tick, DaemonAction, DaemonError, DaemonEvent, DaemonState,
    Identity, LoopStage, StartStage, StopStage, TickOutcome, Transition,
};
use bluegone::time::TimeOfDay;
use bluegone::Pid;

fn at(hour: u32, minute: u32) -> TimeOfDay {
    TimeOfDay::from_hm(hour, minute).unwrap()
}

fn dynamic() -> Configuration {
    Configuration {
        backend: Backend::X11,
        mode: Mode::Dynamic,
        location: None,
        presets: vec![Preset { name: "night".to_string(), temperature: Temperature::new(4000) }],
        schedule: vec![
            Schedule::Temperature { trigger: ScheduleTrigger::Time(at(8, 0)), temperature: Temperature::new(6500) },
            Schedule::Preset { trigger: ScheduleTrigger::Time(at(20, 0)), preset: "night".to_string() },
        ],
    }
}

fn run(config: &Configuration, events: &[DaemonEvent]) -> (DaemonState, Vec<DaemonAction>) {
    let mut state = DaemonState::NotRunning;
    let mut actions = Vec::new();
    for event in events {
        let Transition { next, action } = state.step(config, *event);
        state = next;
        actions.push(action);
    }
    (state, actions)
}

fn tick_at(hour: u32, minute: u32) -> DaemonEvent {
    DaemonEvent::Tick { now: at(hour, minute), persisted: None, sun: None }
}

#[test]
fn start_with_a_live_identity_fails_as_already_running() {
    let (state, actions) = run(
        &dynamic(),
        &[DaemonEvent::Start { detach: false }, DaemonEvent::Probed(Identity::Live(Pid(4711)))],
    );
    assert_eq!(state, DaemonState::NotRunning);
    assert_eq!(actions, vec![DaemonAction::ProbeIdentity, DaemonAction::Fail(DaemonError::AlreadyRunning)]);
    assert_eq!(DaemonError::AlreadyRunning.message(), "Daemon already running.");
}

#[test]
fn nothing_follows_a_refused_start() {
    let (state, actions) = run(
        &dynamic(),
        &[
            DaemonEvent::Start { detach: true },
            DaemonEvent::Probed(Identity::Live(Pid(4711))),
            DaemonEvent::Done,
            DaemonEvent::Probed(Identity::Absent),
            tick_at(10, 0),
            DaemonEvent::Failed,
        ],
    );
    assert_eq!(state, DaemonState::NotRunning);
    assert_eq!(
        actions[2..],
        [DaemonAction::Nothing, DaemonAction::Nothing, DaemonAction::Nothing, DaemonAction::Nothing]
    );
}

#[test]
fn start_with_a_stale_identity_clears_it_and_goes_on() {
    let (state, actions) = run(
        &dynamic(),
        &[
            DaemonEvent::Start { detach: false },
            DaemonEvent::Probed(Identity::Stale(Pid(4711))),
            DaemonEvent::Done,
            DaemonEvent::Done,
            DaemonEvent::Done,
        ],
    );
    assert_eq!(state, DaemonState::Running(LoopStage::Aligning));
    assert_eq!(
        actions,
        vec![
            DaemonAction::ProbeIdentity,
            DaemonAction::ClearMarker,
            DaemonAction::PersistIdentity { detach: false },
            DaemonAction::InstallHandlers,
            DaemonAction::AlignToMinute,
        ]
    );
}

#[test]
fn start_without_an_identity_persists_its_own() {
    let (state, actions) = run(
        &dynamic(),
        &[
            DaemonEvent::Start { detach: true },
            DaemonEvent::Probed(Identity::Absent),
            DaemonEvent::Done,
            DaemonEvent::Done,
        ],
    );
    assert_eq!(state, DaemonState::Running(LoopStage::Aligning));
    assert_eq!(
        actions,
        vec![
            DaemonAction::ProbeIdentity,
            DaemonAction::PersistIdentity { detach: true },
            DaemonAction::InstallHandlers,
            DaemonAction::AlignToMinute,
        ]
    );
}

#[test]
fn start_in_static_mode_is_refused_at_once() {
    let mut config = dynamic();
    config.mode = Mode::Static;
    let (state, actions) = run(&config, &[DaemonEvent::Start { detach: false }]);
    assert_eq!(state, DaemonState::NotRunning);
    assert_eq!(actions, vec![DaemonAction::Fail(DaemonError::StaticMode)]);
    assert_eq!(DaemonError::StaticMode.message(), "Static mode is not supported in the daemon.");
}

#[test]
fn start_with_a_light_trigger_and_no_location_is_refused_at_once() {
    let mut config = dynamic();
    config.schedule.push(Schedule::Temperature {
        trigger: ScheduleTrigger::Light(ScheduleLightTrigger::Sunset),
        temperature: Temperature::new(3500),
    });
    let (state, actions) = run(&config, &[DaemonEvent::Start { detach: false }]);
    assert_eq!(state, DaemonState::NotRunning);
    assert_eq!(actions, vec![DaemonAction::Fail(DaemonError::Config(ConfigError::MissingLocation))]);
    assert_eq!(
        DaemonError::Config(ConfigError::MissingLocation).message(),
        "Using light based schedule entry but no location was provided!"
    );
    config.location = Some(Location { latitude: 51_454_500, longitude: -2_587_900 });
    let (state, actions) = run(&config, &[DaemonEvent::Start { detach: false }]);
    assert_eq!(state, DaemonState::Starting(StartStage::Probing { detach: false }));
    assert_eq!(actions, vec![DaemonAction::ProbeIdentity]);
}

#[test]
fn start_with_an_unknown_preset_is_refused_at_once() {
    let mut config = dynamic();
    config.presets.clear();
    let (state, actions) = run(&config, &[DaemonEvent::Start { detach: false }]);
    assert_eq!(state, DaemonState::NotRunning);
    assert_eq!(actions, vec![DaemonAction::Fail(DaemonError::Config(ConfigError::UnknownPreset))]);
}

#[test]
fn a_failed_step_gives_the_start_up() {
    for done in 0..3 {
        let mut events = vec![DaemonEvent::Start { detach: false }, DaemonEvent::Probed(Identity::Stale(Pid(1)))];
        for _ in 0..done {
            events.push(DaemonEvent::Done);
        }
        events.push(DaemonEvent::Failed);
        let (state, actions) = run(&dynamic(), &events);
        assert_eq!(state, DaemonState::NotRunning);
        assert_eq!(*actions.last().unwrap(), DaemonAction::Fail(DaemonError::ActionFailed));
    }
}

#[test]
fn the_loop_applies_the_active_block_every_tick() {
    let config = dynamic();
    let running = DaemonState::Running(LoopStage::Aligning);
    let first = running.step(&config, tick_at(10, 0));
    assert_eq!(first.next, DaemonState::Running(LoopStage::Applying));
    assert_eq!(first.action, DaemonAction::Apply(Temperature::new(6500)));
    let second = first.next.step(&config, DaemonEvent::Done);
    assert_eq!(second, Transition { next: DaemonState::Running(LoopStage::Waiting), action: DaemonAction::Wait });
    let third = second.next.step(&config, tick_at(23, 0));
    assert_eq!(third.action, DaemonAction::Apply(Temperature::new(4000)));
}

#[test]
fn a_failed_apply_does_not_end_the_loop() {
    let config = dynamic();
    let applying = DaemonState::Running(LoopStage::Applying);
    assert_eq!(
        applying.step(&config, DaemonEvent::Failed),
        Transition { next: DaemonState::Running(LoopStage::Waiting), action: DaemonAction::Wait }
    );
}

#[test]
fn nothing_ends_the_loop() {
    let config = dynamic();
    let events = [
        DaemonEvent::Start { detach: false },
        DaemonEvent::Stop,
        DaemonEvent::Probed(Identity::Absent),
        DaemonEvent::Probed(Identity::Live(Pid(1))),
        DaemonEvent::Done,
        DaemonEvent::Failed,
        tick_at(12, 0),
    ];
    for stage in [LoopStage::Aligning, LoopStage::Waiting, LoopStage::Applying] {
        for event in events {
            let next = DaemonState::Running(stage).step(&config, event).next;
            assert!(matches!(next, DaemonState::Running(_)));
        }
    }
}

#[test]
fn static_mode_stands_by() {
    let config = dynamic();
    let waiting = DaemonState::Running(LoopStage::Waiting);
    let event = DaemonEvent::Tick { now: at(10, 0), persisted: Some(Mode::Static), sun: None };
    assert_eq!(
        waiting.step(&config, event),
        Transition { next: DaemonState::Running(LoopStage::Waiting), action: DaemonAction::Wait }
    );
    assert_eq!(tick(&config, Some(Mode::Static), &None, &at(10, 0)), TickOutcome::Standby);
}

#[test]
fn ticks_come_to_their_outcomes() {
    let mut config = dynamic();
    assert_eq!(tick(&config, None, &None, &at(10, 0)), TickOutcome::Apply(Temperature::new(6500)));
    assert_eq!(tick(&config, Some(Mode::Dynamic), &None, &at(21, 0)), TickOutcome::Apply(Temperature::new(4000)));
    config.mode = Mode::Static;
    assert_eq!(tick(&config, None, &None, &at(10, 0)), TickOutcome::Standby);
    assert_eq!(tick(&config, Some(Mode::Dynamic), &None, &at(10, 0)), TickOutcome::Apply(Temperature::new(6500)));
    config.schedule.clear();
    assert_eq!(tick(&config, Some(Mode::Dynamic), &None, &at(10, 0)), TickOutcome::Idle);
    config.schedule.push(Schedule::Preset { trigger: ScheduleTrigger::Time(at(8, 0)), preset: "dawn".to_string() });
    assert_eq!(
        tick(&config, Some(Mode::Dynamic), &None, &at(10, 0)),
        TickOutcome::Faulty(ConfigError::UnknownPreset)
    );
}

#[test]
fn ticks_follow_the_sun() {
    let mut config = dynamic();
    config.location = Some(Location { latitude: 51_454_500, longitude: -2_587_900 });
    config.schedule = vec![
        Schedule::Temperature {
            trigger: ScheduleTrigger::Light(ScheduleLightTrigger::Sunrise),
            temperature: Temperature::new(6000),
        },
        Schedule::Temperature {
            trigger: ScheduleTrigger::Light(ScheduleLightTrigger::Sunset),
            temperature: Temperature::new(3500),
        },
    ];
    let sun = Some(SunTimes { sunrise: at(6, 0), sunset: at(19, 0) });
    assert_eq!(tick(&config, None, &sun, &at(12, 0)), TickOutcome::Apply(Temperature::new(6000)));
    assert_eq!(tick(&config, None, &sun, &at(22, 0)), TickOutcome::Apply(Temperature::new(3500)));
    assert_eq!(tick(&config, None, &None, &at(22, 0)), TickOutcome::Idle);
}

#[test]
fn stop_ends_a_live_daemon() {
    let (state, actions) = run(
        &dynamic(),
        &[
            DaemonEvent::Stop,
            DaemonEvent::Probed(Identity::Live(Pid(4711))),
            DaemonEvent::Done,
            DaemonEvent::Done,
        ],
    );
    assert_eq!(state, DaemonState::NotRunning);
    assert_eq!(
        actions,
        vec![
            DaemonAction::ProbeIdentity,
            DaemonAction::Terminate(Pid(4711)),
            DaemonAction::ClearMarker,
            DaemonAction::Finish,
        ]
    );
}

#[test]
fn stop_clears_the_marker_only_after_the_daemon_was_told_to_end() {
    let config = dynamic();
    let terminating = DaemonState::Stopping(StopStage::Terminating);
    assert_eq!(
        terminating.step(&config, DaemonEvent::Done),
        Transition { next: DaemonState::Stopping(StopStage::Clearing), action: DaemonAction::ClearMarker }
    );
    assert_eq!(
        terminating.step(&config, DaemonEvent::Failed),
        Transition { next: DaemonState::NotRunning, action: DaemonAction::Fail(DaemonError::ActionFailed) }
    );
    let clearing = DaemonState::Stopping(StopStage::Clearing);
    assert_eq!(
        clearing.step(&config, DaemonEvent::Done),
        Transition { next: DaemonState::NotRunning, action: DaemonAction::Finish }
    );
    assert_eq!(
        clearing.step(&config, DaemonEvent::Failed),
        Transition { next: DaemonState::NotRunning, action: DaemonAction::Fail(DaemonError::ActionFailed) }
    );
}

#[test]
fn a_refused_start_leaves_the_marker_alone() {
    let (_, actions) = run(
        &dynamic(),
        &[
            DaemonEvent::Start { detach: false },
            DaemonEvent::Probed(Identity::Live(Pid(4711))),
            DaemonEvent::Done,
            DaemonEvent::Done,
        ],
    );
    assert!(!actions.contains(&DaemonAction::ClearMarker));
    assert!(!actions.contains(&DaemonAction::PersistIdentity { detach: false }));
}

#[test]
fn stop_without_a_live_daemon_fails() {
    for identity in [Identity::Absent, Identity::Stale(Pid(4711))] {
        let (state, actions) = run(&dynamic(), &[DaemonEvent::Stop, DaemonEvent::Probed(identity)]);
        assert_eq!(state, DaemonState::NotRunning);
        assert_eq!(actions, vec![DaemonAction::ProbeIdentity, DaemonAction::Fail(DaemonError::NoActiveDaemon)]);
    }
    assert_eq!(DaemonError::NoActiveDaemon.message(), "No active daemon found.");
}

#[test]
fn stop_that_cannot_be_carried_out_fails() {
    let (state, actions) = run(
        &dynamic(),
        &[DaemonEvent::Stop, DaemonEvent::Probed(Identity::Live(Pid(4711))), DaemonEvent::Failed],
    );
    assert_eq!(state, DaemonState::NotRunning);
    assert_eq!(actions[2], DaemonAction::Fail(DaemonError::ActionFailed));
    assert_eq!(
        DaemonState::Stopping(StopStage::Probing).step(&dynamic(), DaemonEvent::Done).action,
        DaemonAction::Nothing
    );
}

#[test]
fn identity_is_held_against_the_process_table() {
    let mut sys = sysinfo::System::new();
    sys.refresh_processes(sysinfo::ProcessesToUpdate::All, true);
    let own = Pid(sysinfo::get_current_pid().unwrap().as_u32());
    assert_eq!(probe_identity(None, &sys), Identity::Absent);
    assert_eq!(probe_identity(Some(own), &sys), Identity::Live(own));
    assert_eq!(find_process_by_id(own, &sys).unwrap().pid().as_u32(), own.as_u32());
    let empty = sysinfo::System::new();
    assert_eq!(probe_identity(Some(own), &empty), Identity::Stale(own));
    assert!(find_process_by_id(own, &empty).is_none());
}
