//! The daemon's life: starting as the only instance, the minute loop, and
//! stopping. The decisions are made here, from one event to the next; the
//! caller carries out each action and reports what came of it.

use vstd::prelude::*;
use crate::backends::Temperature;
use crate::config::{effective_mode, ConfigError, Configuration, Mode, SunTimes};
use crate::daemon::{compiled, first_active, parse_schedule, select};
use crate::time::TimeOfDay;
use crate::Pid;

verus! {

/// The process table of `sysinfo`, as it stood when the caller last
/// refreshed it.
#[verifier::external_type_specification]
#[verifier::external_body]
pub struct ExSystem(sysinfo::System);

/// One process of that table.
#[verifier::external_type_specification]
#[verifier::external_body]
pub struct ExProcess(sysinfo::Process);

/// The process with the given id in the table: `sysinfo::Pid::from_u32`
/// makes the key and `sysinfo::System::processes` gives the map that is
/// looked into. Which processes the table holds is the machine's matter:
/// nothing is claimed of the answer.
#[verifier::external_body]
pub fn find_process_by_id(pid: Pid, sys: &sysinfo::System) -> (process: Option<&sysinfo::Process>) {
    sys.processes().get(&sysinfo::Pid::from_u32(pid.0))
}

/// What the identity marker says of a running daemon.
#[derive(Clone, Copy, Debug, PartialEq, Eq, Structural)]
pub enum Identity {
    /// No marker is kept.
    Absent,
    /// The marker names a process that is gone.
    Stale(Pid),
    /// The marker names a process that is alive.
    Live(Pid),
}

impl Identity {
    /// What a marker says, given whether the process that it names is
    /// alive.
    pub open spec fn of(marker: Option<Pid>, alive: bool) -> Identity {
        match marker {
            None => Identity::Absent,
            Some(pid) => if alive {
                Identity::Live(pid)
            } else {
                Identity::Stale(pid)
            },
        }
    }

    /// What a marker says, given whether the process that it names is
    /// alive.
    pub fn from_probe(marker: Option<Pid>, alive: bool) -> (identity: Identity)
        ensures
            identity == Identity::of(marker, alive),
    {
        match marker {
            None => Identity::Absent,
            Some(pid) => if alive {
                Identity::Live(pid)
            } else {
                Identity::Stale(pid)
            },
        }
    }
}

/// Holds the marker that was read against the process table: the process
/// that it names is alive where the table has it.
pub fn probe_identity(marker: Option<Pid>, sys: &sysinfo::System) -> (identity: Identity)
    ensures
        exists|alive: bool| identity == Identity::of(marker, alive),
        marker is None ==> identity == Identity::Absent,
{
    let alive = match marker {
        None => false,
        Some(pid) => find_process_by_id(pid, sys).is_some(),
    };
    let identity = Identity::from_probe(marker, alive);
    assert(identity == Identity::of(marker, alive));
    identity
}

/// Why a daemon command fails.
#[derive(Clone, Copy, Debug, PartialEq, Eq, Structural)]
pub enum DaemonError {
    /// The configured mode is static: there is nothing for a daemon to do.
    StaticMode,
    /// The configuration is refused.
    Config(ConfigError),
    /// The identity marker names a live process.
    AlreadyRunning,
    /// There is no live daemon to stop.
    NoActiveDaemon,
    /// The caller could not carry out the action it was given.
    ActionFailed,
}

impl DaemonError {
    /// What is wrong, in words.
    pub open spec fn text(&self) -> Seq<char> {
        match self {
            DaemonError::StaticMode => "Static mode is not supported in the daemon."@,
            DaemonError::Config(error) => error.text(),
            DaemonError::AlreadyRunning => "Daemon already running."@,
            DaemonError::NoActiveDaemon => "No active daemon found."@,
            DaemonError::ActionFailed => "The daemon could not go on."@,
        }
    }

    /// What is wrong, in words.
    pub fn message(&self) -> (message: String)
        ensures
            message@ == self.text(),
    {
        match self {
            DaemonError::StaticMode => "Static mode is not supported in the daemon.".to_owned(),
            DaemonError::Config(error) => error.message(),
            DaemonError::AlreadyRunning => "Daemon already running.".to_owned(),
            DaemonError::NoActiveDaemon => "No active daemon found.".to_owned(),
            DaemonError::ActionFailed => "The daemon could not go on.".to_owned(),
        }
    }
}

/// How far a start has come.
#[derive(Clone, Copy, Debug, PartialEq, Eq, Structural)]
pub enum StartStage {
    /// The identity marker is being probed.
    Probing { detach: bool },
    /// A stale marker is being removed.
    Clearing { detach: bool },
    /// The daemon's own identity is being persisted.
    Persisting,
    /// The signal handlers are being installed.
    Arming,
}

/// Where the minute loop stands.
#[derive(Clone, Copy, Debug, PartialEq, Eq, Structural)]
pub enum LoopStage {
    /// Waiting for the start of the next minute.
    Aligning,
    /// Waiting for the next tick.
    Waiting,
    /// A temperature is being applied.
    Applying,
}

/// How far a stop has come.
#[derive(Clone, Copy, Debug, PartialEq, Eq, Structural)]
pub enum StopStage {
    /// The identity marker is being probed.
    Probing,
    /// The daemon is being told to end.
    Terminating,
    /// The identity marker of the daemon that was told to end is being
    /// removed.
    Clearing,
}

/// The state of the daemon's life.
#[derive(Clone, Copy, Debug, PartialEq, Eq, Structural)]
pub enum DaemonState {
    NotRunning,
    Starting(StartStage),
    Running(LoopStage),
    Stopping(StopStage),
}

/// What the caller reports.
#[derive(Clone, Copy, Debug, PartialEq, Eq, Structural)]
pub enum DaemonEvent {
    /// A start was asked for, in the background or not.
    Start { detach: bool },
    /// A stop was asked for.
    Stop,
    /// The identity marker was probed.
    Probed(Identity),
    /// The last action was carried out.
    Done,
    /// The last action could not be carried out.
    Failed,
    /// The wait is over: the time of day, the persisted mode if there is
    /// one, and the day's sun times if they could be had.
    Tick { now: TimeOfDay, persisted: Option<Mode>, sun: Option<SunTimes> },
}

/// What the caller is to do next.
#[derive(Clone, Copy, Debug, PartialEq, Eq, Structural)]
pub enum DaemonAction {
    /// Read the identity marker and see whether its process is alive.
    ProbeIdentity,
    /// Remove the identity marker.
    ClearMarker,
    /// Persist the identity of the daemon process: this process, or the
    /// detached one after going to the background.
    PersistIdentity { detach: bool },
    /// Install the handlers of the interrupt and terminate signals.
    InstallHandlers,
    /// Wait for the start of the next minute.
    AlignToMinute,
    /// Wait for a minute.
    Wait,
    /// Apply the temperature through the backend.
    Apply(Temperature),
    /// Tell the process to end.
    Terminate(Pid),
    /// Give the command up with this error.
    Fail(DaemonError),
    /// The command is complete.
    Finish,
    /// The event means nothing in this state.
    Nothing,
}

/// A step: the state that follows and the action to take.
#[derive(Clone, Copy, Debug, PartialEq, Eq, Structural)]
pub struct Transition {
    pub next: DaemonState,
    pub action: DaemonAction,
}

/// What a tick of the loop comes to.
#[derive(Clone, Copy, Debug, PartialEq, Eq, Structural)]
pub enum TickOutcome {
    /// The mode is static: nothing is applied.
    Standby,
    /// No block holds the time: the temperature stays as it is.
    Idle,
    /// The schedule could not be compiled.
    Faulty(ConfigError),
    /// The active block's temperature is to be applied.
    Apply(Temperature),
}

/// What a tick comes to: nothing in static mode; in dynamic mode the
/// temperature of the first block of the freshly compiled ring that holds
/// `now`.
pub open spec fn tick_outcome(
    config: &Configuration,
    persisted: Option<Mode>,
    sun: Option<SunTimes>,
    now: TimeOfDay,
) -> TickOutcome {
    let mode = match persisted {
        Some(kept) => kept,
        None => config.mode,
    };
    match mode {
        Mode::Static => TickOutcome::Standby,
        Mode::Dynamic => match compiled(config, sun) {
            Err(error) => TickOutcome::Faulty(error),
            Ok(ring) => match first_active(ring, now) {
                Some(block) => TickOutcome::Apply(block.temperature),
                None => TickOutcome::Idle,
            },
        },
    }
}

/// Decides one tick of the loop.
pub fn tick(config: &Configuration, persisted: Option<Mode>, sun: &Option<SunTimes>, now: &TimeOfDay) -> (outcome:
    TickOutcome)
    ensures
        outcome == tick_outcome(config, persisted, *sun, *now),
{
    match effective_mode(persisted, config.mode) {
        Mode::Static => TickOutcome::Standby,
        Mode::Dynamic => match parse_schedule(config, sun) {
            Err(error) => TickOutcome::Faulty(error),
            Ok(ring) => match select(&ring, now) {
                Some(block) => TickOutcome::Apply(block.temperature),
                None => TickOutcome::Idle,
            },
        },
    }
}

/// The step that a tick leads to: applying a temperature, or waiting on.
pub open spec fn after_tick(outcome: TickOutcome) -> Transition {
    match outcome {
        TickOutcome::Apply(temperature) => Transition {
            next: DaemonState::Running(LoopStage::Applying),
            action: DaemonAction::Apply(temperature),
        },
        _ => Transition { next: DaemonState::Running(LoopStage::Waiting), action: DaemonAction::Wait },
    }
}

/// The step on an event that means nothing in `state`.
pub open spec fn stay(state: DaemonState) -> Transition {
    Transition { next: state, action: DaemonAction::Nothing }
}

/// The step that gives the command up.
pub open spec fn give_up(error: DaemonError) -> Transition {
    Transition { next: DaemonState::NotRunning, action: DaemonAction::Fail(error) }
}

/// The step from the state on an event, under a configuration.
pub open spec fn step_of(state: DaemonState, config: &Configuration, event: DaemonEvent) -> Transition {
    match (state, event) {
        (DaemonState::NotRunning, DaemonEvent::Start { detach }) => if config.mode == Mode::Static {
            give_up(DaemonError::StaticMode)
        } else {
            match config.check() {
                Err(error) => give_up(DaemonError::Config(error)),
                Ok(_) => Transition {
                    next: DaemonState::Starting(StartStage::Probing { detach }),
                    action: DaemonAction::ProbeIdentity,
                },
            }
        },
        (DaemonState::NotRunning, DaemonEvent::Stop) => Transition {
            next: DaemonState::Stopping(StopStage::Probing),
            action: DaemonAction::ProbeIdentity,
        },
        (DaemonState::Starting(StartStage::Probing { detach }), DaemonEvent::Probed(identity)) => match identity {
            Identity::Live(_) => give_up(DaemonError::AlreadyRunning),
            Identity::Stale(_) => Transition {
                next: DaemonState::Starting(StartStage::Clearing { detach }),
                action: DaemonAction::ClearMarker,
            },
            Identity::Absent => Transition {
                next: DaemonState::Starting(StartStage::Persisting),
                action: DaemonAction::PersistIdentity { detach },
            },
        },
        (DaemonState::Starting(StartStage::Clearing { detach }), DaemonEvent::Done) => Transition {
            next: DaemonState::Starting(StartStage::Persisting),
            action: DaemonAction::PersistIdentity { detach },
        },
        (DaemonState::Starting(StartStage::Persisting), DaemonEvent::Done) => Transition {
            next: DaemonState::Starting(StartStage::Arming),
            action: DaemonAction::InstallHandlers,
        },
        (DaemonState::Starting(StartStage::Arming), DaemonEvent::Done) => Transition {
            next: DaemonState::Running(LoopStage::Aligning),
            action: DaemonAction::AlignToMinute,
        },
        (DaemonState::Starting(_), DaemonEvent::Failed) => give_up(DaemonError::ActionFailed),
        (DaemonState::Running(LoopStage::Aligning), DaemonEvent::Tick { now, persisted, sun }) => after_tick(
            tick_outcome(config, persisted, sun, now),
        ),
        (DaemonState::Running(LoopStage::Waiting), DaemonEvent::Tick { now, persisted, sun }) => after_tick(
            tick_outcome(config, persisted, sun, now),
        ),
        (DaemonState::Running(LoopStage::Applying), DaemonEvent::Done) => Transition {
            next: DaemonState::Running(LoopStage::Waiting),
            action: DaemonAction::Wait,
        },
        (DaemonState::Running(LoopStage::Applying), DaemonEvent::Failed) => Transition {
            next: DaemonState::Running(LoopStage::Waiting),
            action: DaemonAction::Wait,
        },
        (DaemonState::Stopping(StopStage::Probing), DaemonEvent::Probed(identity)) => match identity {
            Identity::Live(pid) => Transition {
                next: DaemonState::Stopping(StopStage::Terminating),
                action: DaemonAction::Terminate(pid),
            },
            _ => give_up(DaemonError::NoActiveDaemon),
        },
        (DaemonState::Stopping(StopStage::Terminating), DaemonEvent::Done) => Transition {
            next: DaemonState::Stopping(StopStage::Clearing),
            action: DaemonAction::ClearMarker,
        },
        (DaemonState::Stopping(StopStage::Clearing), DaemonEvent::Done) => Transition {
            next: DaemonState::NotRunning,
            action: DaemonAction::Finish,
        },
        (DaemonState::Stopping(_), DaemonEvent::Failed) => give_up(DaemonError::ActionFailed),
        _ => stay(state),
    }
}

impl DaemonState {
    /// Takes the step from this state on an event.
    pub fn step(self, config: &Configuration, event: DaemonEvent) -> (transition: Transition)
        ensures
            transition == step_of(self, config, event),
    {
        let stay = Transition { next: self, action: DaemonAction::Nothing };
        let failed = Transition {
            next: DaemonState::NotRunning,
            action: DaemonAction::Fail(DaemonError::ActionFailed),
        };
        let wait = Transition { next: DaemonState::Running(LoopStage::Waiting), action: DaemonAction::Wait };
        match self {
            DaemonState::NotRunning => match event {
                DaemonEvent::Start { detach } => {
                    if config.mode == Mode::Static {
                        Transition {
                            next: DaemonState::NotRunning,
                            action: DaemonAction::Fail(DaemonError::StaticMode),
                        }
                    } else {
                        match config.validate() {
                            Err(error) => Transition {
                                next: DaemonState::NotRunning,
                                action: DaemonAction::Fail(DaemonError::Config(error)),
                            },
                            Ok(_) => Transition {
                                next: DaemonState::Starting(StartStage::Probing { detach }),
                                action: DaemonAction::ProbeIdentity,
                            },
                        }
                    }
                },
                DaemonEvent::Stop => Transition {
                    next: DaemonState::Stopping(StopStage::Probing),
                    action: DaemonAction::ProbeIdentity,
                },
                _ => stay,
            },
            DaemonState::Starting(stage) => match (stage, event) {
                (StartStage::Probing { detach: _ }, DaemonEvent::Probed(Identity::Live(_))) => Transition {
                    next: DaemonState::NotRunning,
                    action: DaemonAction::Fail(DaemonError::AlreadyRunning),
                },
                (StartStage::Probing { detach }, DaemonEvent::Probed(Identity::Stale(_))) => Transition {
                    next: DaemonState::Starting(StartStage::Clearing { detach }),
                    action: DaemonAction::ClearMarker,
                },
                (StartStage::Probing { detach }, DaemonEvent::Probed(Identity::Absent)) => Transition {
                    next: DaemonState::Starting(StartStage::Persisting),
                    action: DaemonAction::PersistIdentity { detach },
                },
                (StartStage::Clearing { detach }, DaemonEvent::Done) => Transition {
                    next: DaemonState::Starting(StartStage::Persisting),
                    action: DaemonAction::PersistIdentity { detach },
                },
                (StartStage::Persisting, DaemonEvent::Done) => Transition {
                    next: DaemonState::Starting(StartStage::Arming),
                    action: DaemonAction::InstallHandlers,
                },
                (StartStage::Arming, DaemonEvent::Done) => Transition {
                    next: DaemonState::Running(LoopStage::Aligning),
                    action: DaemonAction::AlignToMinute,
                },
                (_, DaemonEvent::Failed) => failed,
                _ => stay,
            },
            DaemonState::Running(stage) => match (stage, event) {
                (LoopStage::Applying, DaemonEvent::Done) => wait,
                (LoopStage::Applying, DaemonEvent::Failed) => wait,
                (LoopStage::Applying, _) => stay,
                (_, DaemonEvent::Tick { now, persisted, sun }) => match tick(config, persisted, &sun, &now) {
                    TickOutcome::Apply(temperature) => Transition {
                        next: DaemonState::Running(LoopStage::Applying),
                        action: DaemonAction::Apply(temperature),
                    },
                    _ => wait,
                },
                _ => stay,
            },
            DaemonState::Stopping(stage) => match (stage, event) {
                (StopStage::Probing, DaemonEvent::Probed(Identity::Live(pid))) => Transition {
                    next: DaemonState::Stopping(StopStage::Terminating),
                    action: DaemonAction::Terminate(pid),
                },
                (StopStage::Probing, DaemonEvent::Probed(_)) => Transition {
                    next: DaemonState::NotRunning,
                    action: DaemonAction::Fail(DaemonError::NoActiveDaemon),
                },
                (StopStage::Terminating, DaemonEvent::Done) => Transition {
                    next: DaemonState::Stopping(StopStage::Clearing),
                    action: DaemonAction::ClearMarker,
                },
                (StopStage::Clearing, DaemonEvent::Done) => Transition {
                    next: DaemonState::NotRunning,
                    action: DaemonAction::Finish,
                },
                (_, DaemonEvent::Failed) => failed,
                _ => stay,
            },
        }
    }
}

/// The state after a run of events.
pub open spec fn state_after(state: DaemonState, config: &Configuration, events: Seq<DaemonEvent>) -> DaemonState
    decreases events.len(),
{
    if events.len() == 0 {
        state
    } else {
        state_after(step_of(state, config, events[0]).next, config, events.drop_first())
    }
}

/// The actions that a run of events calls for, one for each event.
pub open spec fn actions_of(state: DaemonState, config: &Configuration, events: Seq<DaemonEvent>) -> Seq<
    DaemonAction,
>
    decreases events.len(),
{
    if events.len() == 0 {
        Seq::empty()
    } else {
        seq![step_of(state, config, events[0]).action] + actions_of(
            step_of(state, config, events[0]).next,
            config,
            events.drop_first(),
        )
    }
}

/// The action is work of a daemon of this process: it writes the identity
/// marker, arms the daemon, or belongs to the minute loop.
pub open spec fn is_daemon_work(action: DaemonAction) -> bool {
    action is PersistIdentity || action is InstallHandlers || action is AlignToMinute || action is Wait
        || action is Apply
}

/// No daemon is starting or running in this state.
pub open spec fn is_idle(state: DaemonState) -> bool {
    state is NotRunning || state is Stopping
}

/// Without a start, no daemon comes to be: from a state in which none is
/// starting or running, a run of events that asks for no start calls for no
/// work of a daemon and ends in such a state.
pub proof fn lemma_no_start_no_daemon(state: DaemonState, config: &Configuration, events: Seq<DaemonEvent>)
    requires
        is_idle(state),
        forall|i: int| 0 <= i < events.len() ==> !((#[trigger] events[i]) is Start),
    ensures
        is_idle(state_after(state, config, events)),
        actions_of(state, config, events).len() == events.len(),
        forall|k: int|
            0 <= k < events.len() ==> !is_daemon_work(#[trigger] actions_of(state, config, events)[k]),
    decreases events.len(),
{
    if events.len() > 0 {
        let first = step_of(state, config, events[0]);
        let rest = events.drop_first();
        assert(!(events[0] is Start));
        assert forall|i: int| 0 <= i < rest.len() implies !((#[trigger] rest[i]) is Start) by {
            assert(rest[i] == events[i + 1]);
        }
        lemma_no_start_no_daemon(first.next, config, rest);
    }
}

/// Without a command, nothing is done: where no daemon is running and
/// neither a start nor a stop is asked for, every event is answered with
/// `Nothing`, and no daemon is running afterwards.
pub proof fn lemma_no_command_nothing(config: &Configuration, events: Seq<DaemonEvent>)
    requires
        forall|i: int|
            0 <= i < events.len() ==> !((#[trigger] events[i]) is Start) && !(events[i] is Stop),
    ensures
        state_after(DaemonState::NotRunning, config, events) == DaemonState::NotRunning,
        actions_of(DaemonState::NotRunning, config, events).len() == events.len(),
        forall|k: int|
            0 <= k < events.len() ==> #[trigger] actions_of(DaemonState::NotRunning, config, events)[k]
                == DaemonAction::Nothing,
    decreases events.len(),
{
    if events.len() > 0 {
        let rest = events.drop_first();
        assert(!(events[0] is Start) && !(events[0] is Stop));
        assert forall|i: int| 0 <= i < rest.len() implies !((#[trigger] rest[i]) is Start) && !(rest[i]
            is Stop) by {
            assert(rest[i] == events[i + 1]);
        }
        lemma_no_command_nothing(config, rest);
    }
}

/// The identity marker is removed on two occasions only: by a start that
/// found it stale, and by a stop that has told the daemon to end.
pub proof fn lemma_marker_removal(state: DaemonState, config: &Configuration, event: DaemonEvent)
    requires
        step_of(state, config, event).action is ClearMarker,
    ensures
        (state is Starting && state->Starting_0 is Probing && event is Probed && event->Probed_0 is Stale)
            || (state == DaemonState::Stopping(StopStage::Terminating) && event == DaemonEvent::Done),
{
}

/// A stop of a live daemon tells its process to end, then removes the
/// identity marker, and is complete; no daemon is running afterwards.
pub proof fn lemma_stop_clears_marker(config: &Configuration, pid: Pid)
    ensures
        ({
            let events = seq![
                DaemonEvent::Stop,
                DaemonEvent::Probed(Identity::Live(pid)),
                DaemonEvent::Done,
                DaemonEvent::Done,
            ];
            &&& actions_of(DaemonState::NotRunning, config, events) == seq![
                DaemonAction::ProbeIdentity,
                DaemonAction::Terminate(pid),
                DaemonAction::ClearMarker,
                DaemonAction::Finish,
            ]
            &&& state_after(DaemonState::NotRunning, config, events) == DaemonState::NotRunning
        }),
{
    let e0 = seq![
        DaemonEvent::Stop,
        DaemonEvent::Probed(Identity::Live(pid)),
        DaemonEvent::Done,
        DaemonEvent::Done,
    ];
    let e1 = e0.drop_first();
    let e2 = e1.drop_first();
    let e3 = e2.drop_first();
    let e4 = e3.drop_first();
    let s1 = DaemonState::Stopping(StopStage::Probing);
    let s2 = DaemonState::Stopping(StopStage::Terminating);
    let s3 = DaemonState::Stopping(StopStage::Clearing);
    let s4 = DaemonState::NotRunning;
    assert(e4.len() == 0);
    assert(actions_of(s4, config, e4) == Seq::<DaemonAction>::empty());
    assert(state_after(s4, config, e4) == s4);
    assert(e3[0] == DaemonEvent::Done);
    assert(actions_of(s3, config, e3) == seq![DaemonAction::Finish]);
    assert(state_after(s3, config, e3) == s4);
    assert(e2[0] == DaemonEvent::Done);
    assert(actions_of(s2, config, e2) == seq![DaemonAction::ClearMarker, DaemonAction::Finish]);
    assert(state_after(s2, config, e2) == s4);
    assert(e1[0] == DaemonEvent::Probed(Identity::Live(pid)));
    assert(actions_of(s1, config, e1) == seq![
        DaemonAction::Terminate(pid),
        DaemonAction::ClearMarker,
        DaemonAction::Finish,
    ]);
    assert(state_after(s1, config, e1) == s4);
    assert(e0[0] == DaemonEvent::Stop);
    assert(actions_of(DaemonState::NotRunning, config, e0) == seq![
        DaemonAction::ProbeIdentity,
        DaemonAction::Terminate(pid),
        DaemonAction::ClearMarker,
        DaemonAction::Finish,
    ]);
}

/// One daemon at a time: a start that finds the identity marker naming a
/// live process fails with `AlreadyRunning`, and whatever is reported after
/// it, short of a new start, calls for no work of a daemon: no marker is
/// written and the loop is not entered. Short of a stop as well, nothing at
/// all is called for, so that the marker stays as it was found.
pub proof fn lemma_single_instance(config: &Configuration, detach: bool, pid: Pid, later: Seq<DaemonEvent>)
    requires
        config.mode == Mode::Dynamic,
        config.check() is Ok,
        forall|i: int| 0 <= i < later.len() ==> !((#[trigger] later[i]) is Start),
    ensures
        ({
            let events = seq![
                DaemonEvent::Start { detach },
                DaemonEvent::Probed(Identity::Live(pid)),
            ] + later;
            let actions = actions_of(DaemonState::NotRunning, config, events);
            &&& actions.len() == events.len()
            &&& actions[0] == DaemonAction::ProbeIdentity
            &&& actions[1] == DaemonAction::Fail(DaemonError::AlreadyRunning)
            &&& forall|k: int| 0 <= k < actions.len() ==> !is_daemon_work(#[trigger] actions[k])
            &&& is_idle(state_after(DaemonState::NotRunning, config, events))
            &&& (forall|i: int| 0 <= i < later.len() ==> !((#[trigger] later[i]) is Stop)) ==> forall|k: int|
                2 <= k < actions.len() ==> #[trigger] actions[k] == DaemonAction::Nothing
        }),
{
    let events = seq![DaemonEvent::Start { detach }, DaemonEvent::Probed(Identity::Live(pid))] + later;
    let probing = DaemonState::Starting(StartStage::Probing { detach });
    let tail = events.drop_first();
    assert(tail.drop_first() == later);
    assert(events[0] == DaemonEvent::Start { detach });
    assert(tail[0] == DaemonEvent::Probed(Identity::Live(pid)));
    assert(step_of(DaemonState::NotRunning, config, events[0]).next == probing);
    assert(step_of(probing, config, tail[0]).next == DaemonState::NotRunning);
    lemma_no_start_no_daemon(DaemonState::NotRunning, config, later);
    assert(actions_of(probing, config, tail) == seq![
        DaemonAction::Fail(DaemonError::AlreadyRunning),
    ] + actions_of(DaemonState::NotRunning, config, later));
    assert(actions_of(DaemonState::NotRunning, config, events) == seq![DaemonAction::ProbeIdentity]
        + actions_of(probing, config, tail));
    assert(state_after(probing, config, tail) == state_after(DaemonState::NotRunning, config, later));
    assert(state_after(DaemonState::NotRunning, config, events) == state_after(probing, config, tail));
    let actions = actions_of(DaemonState::NotRunning, config, events);
    assert forall|k: int| 0 <= k < actions.len() implies !is_daemon_work(#[trigger] actions[k]) by {
        if k >= 2 {
            assert(actions[k] == actions_of(DaemonState::NotRunning, config, later)[k - 2]);
        }
    }
    if forall|i: int| 0 <= i < later.len() ==> !((#[trigger] later[i]) is Stop) {
        lemma_no_command_nothing(config, later);
        assert forall|k: int| 2 <= k < actions.len() implies #[trigger] actions[k]
            == DaemonAction::Nothing by {
            assert(actions[k] == actions_of(DaemonState::NotRunning, config, later)[k - 2]);
        }
    }
}

/// A stale marker does not stand in the way: a start that finds the marker
/// naming a dead process has the marker removed, persists the identity of
/// the new daemon, installs the signal handlers and enters the loop.
pub proof fn lemma_stale_identity_recovers(config: &Configuration, detach: bool, pid: Pid)
    requires
        config.mode == Mode::Dynamic,
        config.check() is Ok,
    ensures
        ({
            let events = seq![
                DaemonEvent::Start { detach },
                DaemonEvent::Probed(Identity::Stale(pid)),
                DaemonEvent::Done,
                DaemonEvent::Done,
                DaemonEvent::Done,
            ];
            &&& actions_of(DaemonState::NotRunning, config, events) == seq![
                DaemonAction::ProbeIdentity,
                DaemonAction::ClearMarker,
                DaemonAction::PersistIdentity { detach },
                DaemonAction::InstallHandlers,
                DaemonAction::AlignToMinute,
            ]
            &&& state_after(DaemonState::NotRunning, config, events) == DaemonState::Running(
                LoopStage::Aligning,
            )
        }),
{
    let e0 = seq![
        DaemonEvent::Start { detach },
        DaemonEvent::Probed(Identity::Stale(pid)),
        DaemonEvent::Done,
        DaemonEvent::Done,
        DaemonEvent::Done,
    ];
    let e1 = e0.drop_first();
    let e2 = e1.drop_first();
    let e3 = e2.drop_first();
    let e4 = e3.drop_first();
    let e5 = e4.drop_first();
    let s1 = DaemonState::Starting(StartStage::Probing { detach });
    let s2 = DaemonState::Starting(StartStage::Clearing { detach });
    let s3 = DaemonState::Starting(StartStage::Persisting);
    let s4 = DaemonState::Starting(StartStage::Arming);
    let s5 = DaemonState::Running(LoopStage::Aligning);
    assert(e5.len() == 0);
    assert(actions_of(s5, config, e5) == Seq::<DaemonAction>::empty());
    assert(state_after(s5, config, e5) == s5);
    assert(e4[0] == DaemonEvent::Done);
    assert(actions_of(s4, config, e4) == seq![DaemonAction::AlignToMinute]);
    assert(state_after(s4, config, e4) == s5);
    assert(e3[0] == DaemonEvent::Done);
    assert(actions_of(s3, config, e3) == seq![DaemonAction::InstallHandlers, DaemonAction::AlignToMinute]);
    assert(state_after(s3, config, e3) == s5);
    assert(e2[0] == DaemonEvent::Done);
    assert(actions_of(s2, config, e2) == seq![
        DaemonAction::PersistIdentity { detach },
        DaemonAction::InstallHandlers,
        DaemonAction::AlignToMinute,
    ]);
    assert(state_after(s2, config, e2) == s5);
    assert(e1[0] == DaemonEvent::Probed(Identity::Stale(pid)));
    assert(actions_of(s1, config, e1) == seq![
        DaemonAction::ClearMarker,
        DaemonAction::PersistIdentity { detach },
        DaemonAction::InstallHandlers,
        DaemonAction::AlignToMinute,
    ]);
    assert(state_after(s1, config, e1) == s5);
    assert(e0[0] == DaemonEvent::Start { detach });
    assert(actions_of(DaemonState::NotRunning, config, e0) == seq![
        DaemonAction::ProbeIdentity,
        DaemonAction::ClearMarker,
        DaemonAction::PersistIdentity { detach },
        DaemonAction::InstallHandlers,
        DaemonAction::AlignToMinute,
    ]);
}

/// A schedule that follows the sun needs a location: without one a start
/// fails at once, before the identity marker is probed or written, and
/// whatever is reported after it, short of a new start, calls for no work
/// of a daemon.
pub proof fn lemma_missing_location_refuses_start(config: &Configuration, detach: bool, later: Seq<DaemonEvent>)
    requires
        crate::config::follows_sun(config.schedule@),
        config.location is None,
        forall|i: int| 0 <= i < later.len() ==> !((#[trigger] later[i]) is Start),
    ensures
        step_of(DaemonState::NotRunning, config, DaemonEvent::Start { detach }).next
            == DaemonState::NotRunning,
        step_of(DaemonState::NotRunning, config, DaemonEvent::Start { detach }).action == DaemonAction::Fail(
            if config.mode == Mode::Static {
                DaemonError::StaticMode
            } else {
                DaemonError::Config(ConfigError::MissingLocation)
            },
        ),
        forall|k: int|
            0 <= k < later.len() + 1 ==> !is_daemon_work(
                #[trigger] actions_of(
                    DaemonState::NotRunning,
                    config,
                    seq![DaemonEvent::Start { detach }] + later,
                )[k],
            ),
{
    let events = seq![DaemonEvent::Start { detach }] + later;
    assert(events.drop_first() == later);
    assert(events[0] == DaemonEvent::Start { detach });
    lemma_no_start_no_daemon(DaemonState::NotRunning, config, later);
    let actions = actions_of(DaemonState::NotRunning, config, events);
    assert(actions == seq![step_of(DaemonState::NotRunning, config, events[0]).action] + actions_of(
        DaemonState::NotRunning,
        config,
        later,
    ));
    assert forall|k: int| 0 <= k < later.len() + 1 implies !is_daemon_work(#[trigger] actions[k]) by {
        if k >= 1 {
            assert(actions[k] == actions_of(DaemonState::NotRunning, config, later)[k - 1]);
        }
    }
}

/// The loop has no way out: whatever is reported to a running daemon, it
/// goes on running.
pub proof fn lemma_loop_never_ends(stage: LoopStage, config: &Configuration, event: DaemonEvent)
    ensures
        step_of(DaemonState::Running(stage), config, event).next is Running,
{
}

/// In static mode a tick applies nothing: the daemon waits on.
pub proof fn lemma_static_mode_stands_by(
    stage: LoopStage,
    config: &Configuration,
    now: TimeOfDay,
    persisted: Option<Mode>,
    sun: Option<SunTimes>,
)
    requires
        persisted == Some(Mode::Static) || (persisted is None && config.mode == Mode::Static),
    ensures
        tick_outcome(config, persisted, sun, now) == TickOutcome::Standby,
        !(step_of(DaemonState::Running(stage), config, DaemonEvent::Tick { now, persisted, sun }).action
            is Apply),
{
}

} // verus!
