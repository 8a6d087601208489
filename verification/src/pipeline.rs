//! Running a command under watch: which signal goes to the monitoring
//! service, and when.
//!
//! The pipeline itself sends nothing and spawns nothing. It answers each
//! event with the next action; the caller performs the action and comes back
//! with the event that tells how it went. The order is fixed: make the
//! client, send the start signal if a timer is wanted, spawn the command and
//! wait for it, report the outcome, finish.

use crate::command::{
    is_blank, join_with_spaces, space_free, split_on_spaces, CommandError, CommandSpec,
};
use crate::settings::Settings;
use vstd::prelude::*;

verus! {

/// How the monitored command ended.
#[derive(Debug, Clone, Copy, PartialEq, Eq, Structural)]
pub enum ExecutionOutcome {
    /// It terminated with this exit code.
    Completed(i32),
    /// It terminated without an exit code, as when a signal kills it.
    Interrupted,
}

/// What the caller reports back after an action.
#[derive(Debug, Clone, Copy, PartialEq, Eq, Structural)]
pub enum Event {
    /// The client for the monitoring service was made.
    ClientBuilt,
    /// The client could not be made.
    ClientRejected,
    /// The start signal was sent.
    TimerStarted,
    /// The start signal could not be sent.
    TimerFailed,
    /// The command was spawned and has ended.
    ProcessEnded(ExecutionOutcome),
    /// The command could not be started.
    SpawnFailed,
    /// The outcome was reported.
    ReportDelivered,
    /// The outcome could not be reported.
    ReportFailed,
}

/// A fault that ends the run.
#[derive(Debug, Clone, Copy, PartialEq, Eq, Structural)]
pub enum FatalError {
    /// The command line names no program.
    MissingCommand,
    /// The client for the monitoring service could not be made.
    ClientRejected,
    /// The start signal was not confirmed; the command was not run.
    TimerNotStarted,
    /// The command could not be started.
    SpawnFailed,
    /// The command ended with this exit code, but its outcome did not reach
    /// the monitoring service.
    ReportNotDelivered(i32),
}

/// How a run ended.
#[derive(Debug, Clone, Copy, PartialEq, Eq, Structural)]
pub enum Conclusion {
    /// The command exited with code 0 and the success was reported.
    Success,
    /// The command exited with this code, which is not 0, and the failure
    /// was reported.
    Failure(i32),
    /// The command ended without an exit code; nothing was reported.
    Interrupted,
    /// The run was given up.
    Fatal(FatalError),
}

/// What the caller is to do next.
#[derive(Debug, Clone, Copy, PartialEq, Eq, Structural)]
pub enum Action {
    /// Make the client for the monitoring service from the settings.
    BuildClient,
    /// Send the start signal.
    StartTimer,
    /// Spawn the command and wait until it ends.
    Spawn,
    /// Report a success.
    ReportSuccess,
    /// Report a failure.
    ReportFailure,
    /// Stop: the run is over.
    Finish(Conclusion),
}

/// Where a run stands.
#[derive(Debug, Clone, Copy, PartialEq, Eq, Structural)]
pub enum Phase {
    /// Nothing was sent or spawned yet; the client is being made.
    Idle,
    /// The start signal is on its way.
    StartingTimer,
    /// The command runs.
    Spawned,
    /// The command ended with this exit code, and the report is on its way.
    Reporting(i32),
    /// The run is over.
    Done(Conclusion),
}

/// The exit status of the tool after a fault of its own.
pub const FATAL_EXIT_STATUS: i32 = 1;

/// The phase in which a run on `line` begins: a blank line ends it at once.
pub open spec fn initial_phase(line: Seq<char>) -> Phase {
    if is_blank(line) {
        Phase::Done(Conclusion::Fatal(FatalError::MissingCommand))
    } else {
        Phase::Idle
    }
}

/// The first action of a run on `line`.
pub open spec fn initial_action(line: Seq<char>) -> Action {
    if is_blank(line) {
        Action::Finish(Conclusion::Fatal(FatalError::MissingCommand))
    } else {
        Action::BuildClient
    }
}

/// The end of a run with `conclusion`.
pub open spec fn finish(conclusion: Conclusion) -> (Phase, Action) {
    (Phase::Done(conclusion), Action::Finish(conclusion))
}

/// The phase and the action that follow `event` in `phase`.
///
/// Each phase waits for the event that confirms its action. Any other event
/// counts as the failure of that action. Once a run is over it stays over.
pub open spec fn next(phase: Phase, use_timer: bool, event: Event) -> (Phase, Action) {
    match phase {
        Phase::Idle => match event {
            Event::ClientBuilt => if use_timer {
                (Phase::StartingTimer, Action::StartTimer)
            } else {
                (Phase::Spawned, Action::Spawn)
            },
            _ => finish(Conclusion::Fatal(FatalError::ClientRejected)),
        },
        Phase::StartingTimer => match event {
            Event::TimerStarted => (Phase::Spawned, Action::Spawn),
            _ => finish(Conclusion::Fatal(FatalError::TimerNotStarted)),
        },
        Phase::Spawned => match event {
            Event::ProcessEnded(ExecutionOutcome::Completed(code)) => if code == 0 {
                (Phase::Reporting(code), Action::ReportSuccess)
            } else {
                (Phase::Reporting(code), Action::ReportFailure)
            },
            Event::ProcessEnded(ExecutionOutcome::Interrupted) => finish(Conclusion::Interrupted),
            _ => finish(Conclusion::Fatal(FatalError::SpawnFailed)),
        },
        Phase::Reporting(code) => match event {
            Event::ReportDelivered => if code == 0 {
                finish(Conclusion::Success)
            } else {
                finish(Conclusion::Failure(code))
            },
            _ => finish(Conclusion::Fatal(FatalError::ReportNotDelivered(code))),
        },
        Phase::Done(conclusion) => finish(conclusion),
    }
}

/// Each action has its one occasion. The start signal is sent when the
/// client was made and the timer is wanted. The command is spawned when the
/// client was made and no timer is wanted, or when the start signal was
/// confirmed. A success is reported when the running command ends with exit
/// code 0, a failure when it ends with another exit code. The client is
/// never asked for again.
pub proof fn law_occasion_of_each_action(phase: Phase, use_timer: bool, event: Event)
    ensures
        next(phase, use_timer, event).1 != Action::BuildClient,
        next(phase, use_timer, event).1 == Action::StartTimer <==> phase == Phase::Idle
            && use_timer && event == Event::ClientBuilt,
        next(phase, use_timer, event).1 == Action::Spawn <==> (phase == Phase::Idle && !use_timer
            && event == Event::ClientBuilt) || (phase == Phase::StartingTimer && event
            == Event::TimerStarted),
        next(phase, use_timer, event).1 == Action::ReportSuccess <==> phase == Phase::Spawned
            && event == Event::ProcessEnded(ExecutionOutcome::Completed(0)),
        next(phase, use_timer, event).1 == Action::ReportFailure <==> phase == Phase::Spawned && (
        exists|code: i32|
            code != 0 && event == Event::ProcessEnded(ExecutionOutcome::Completed(code))),
        phase == Phase::Spawned && event == Event::ProcessEnded(ExecutionOutcome::Interrupted)
            ==> next(phase, use_timer, event) == finish(Conclusion::Interrupted),
{
    if phase == Phase::Spawned {
        if let Event::ProcessEnded(ExecutionOutcome::Completed(code)) = event {
            if code != 0 {
                assert(event == Event::ProcessEnded(ExecutionOutcome::Completed(code)));
            }
        }
    }
}

/// The exit status of the tool after a run: that of the command where it has
/// one and it is not 0 or its report went through; `FATAL_EXIT_STATUS` after
/// any other fault; 0 after an interrupted command.
pub open spec fn exit_status(conclusion: Conclusion) -> int {
    match conclusion {
        Conclusion::Success => 0,
        Conclusion::Failure(code) => code as int,
        Conclusion::Interrupted => 0,
        Conclusion::Fatal(FatalError::ReportNotDelivered(code)) => if code != 0 {
            code as int
        } else {
            FATAL_EXIT_STATUS as int
        },
        Conclusion::Fatal(_) => FATAL_EXIT_STATUS as int,
    }
}

/// The line for the error stream after a run, if it calls for one.
pub open spec fn diagnostic(conclusion: Conclusion) -> Option<Seq<char>> {
    match conclusion {
        Conclusion::Success => None,
        Conclusion::Failure(_) => None,
        Conclusion::Interrupted => Some("Interrupted!"@),
        Conclusion::Fatal(FatalError::MissingCommand) => Some("Command must be provided!"@),
        Conclusion::Fatal(FatalError::ClientRejected) => Some(
            "The monitoring client could not be set up"@,
        ),
        Conclusion::Fatal(FatalError::TimerNotStarted) => Some(
            "The start signal could not be sent"@,
        ),
        Conclusion::Fatal(FatalError::SpawnFailed) => Some("The command could not be started"@),
        Conclusion::Fatal(FatalError::ReportNotDelivered(_)) => Some(
            "The outcome could not be reported"@,
        ),
    }
}

/// Computes the exit status of the tool after a run.
pub fn exit_status_of(conclusion: Conclusion) -> (status: i32)
    ensures
        status == exit_status(conclusion),
{
    match conclusion {
        Conclusion::Success => 0,
        Conclusion::Failure(code) => code,
        Conclusion::Interrupted => 0,
        Conclusion::Fatal(FatalError::ReportNotDelivered(code)) => if code != 0 {
            code
        } else {
            FATAL_EXIT_STATUS
        },
        Conclusion::Fatal(_) => FATAL_EXIT_STATUS,
    }
}

/// Gives the line for the error stream after a run, if it calls for one.
pub fn diagnostic_of(conclusion: Conclusion) -> (line: Option<&'static str>)
    ensures
        match line {
            Some(text) => diagnostic(conclusion) == Some(text@),
            None => diagnostic(conclusion) is None,
        },
{
    match conclusion {
        Conclusion::Success => None,
        Conclusion::Failure(_) => None,
        Conclusion::Interrupted => Some("Interrupted!"),
        Conclusion::Fatal(FatalError::MissingCommand) => Some("Command must be provided!"),
        Conclusion::Fatal(FatalError::ClientRejected) => Some(
            "The monitoring client could not be set up",
        ),
        Conclusion::Fatal(FatalError::TimerNotStarted) => Some(
            "The start signal could not be sent",
        ),
        Conclusion::Fatal(FatalError::SpawnFailed) => Some("The command could not be started"),
        Conclusion::Fatal(FatalError::ReportNotDelivered(_)) => Some(
            "The outcome could not be reported",
        ),
    }
}

/// The text of the tokens of an optional command.
pub open spec fn optional_tokens(command: Option<CommandSpec>) -> Option<Seq<Seq<char>>> {
    match command {
        Some(spec) => Some(spec@),
        None => None,
    }
}

/// One run: its settings, its command, whether it uses the timer, and where
/// it stands. A run without a command is over.
#[derive(Debug)]
pub struct Pipeline {
    settings: Settings,
    command: Option<CommandSpec>,
    use_timer: bool,
    phase: Phase,
}

impl Pipeline {
    #[verifier::type_invariant]
    spec fn well_formed(&self) -> bool {
        self.command is None ==> self.phase is Done
    }

    /// Where the run stands.
    pub closed spec fn phase(&self) -> Phase {
        self.phase
    }

    /// Whether the run sends the start signal.
    pub closed spec fn use_timer(&self) -> bool {
        self.use_timer
    }

    /// The tokens of the command, where the line named one.
    pub closed spec fn tokens(&self) -> Option<Seq<Seq<char>>> {
        optional_tokens(self.command)
    }

    /// The settings of the run.
    pub closed spec fn settings(&self) -> Settings {
        self.settings
    }

    /// Begins a run of the command on `line` and says what to do first:
    /// make the client, or, for a blank line, finish with `MissingCommand`.
    /// Nothing else is done before the line has been read.
    pub fn begin(settings: Settings, line: &str, use_timer: bool) -> (started: (Pipeline, Action))
        ensures
            started.0.phase() == initial_phase(line@),
            started.1 == initial_action(line@),
            is_blank(line@) ==> started.1 == Action::Finish(
                Conclusion::Fatal(FatalError::MissingCommand),
            ),
            started.0.use_timer() == use_timer,
            started.0.settings() == settings,
            started.0.tokens() == if is_blank(line@) {
                None
            } else {
                Some(split_on_spaces(line@))
            },
            started.0.tokens() matches Some(tokens) ==> space_free(tokens) && join_with_spaces(
                tokens,
            ) == line@,
    {
        match CommandSpec::parse(line) {
            Ok(command) => (
                Pipeline { settings, command: Some(command), use_timer, phase: Phase::Idle },
                Action::BuildClient,
            ),
            Err(CommandError::MissingCommand) => {
                let conclusion = Conclusion::Fatal(FatalError::MissingCommand);
                (
                    Pipeline { settings, command: None, use_timer, phase: Phase::Done(conclusion) },
                    Action::Finish(conclusion),
                )
            },
        }
    }

    /// Takes the event that tells how the last action went, moves on, and
    /// says what to do next.
    pub fn step(&mut self, event: Event) -> (action: Action)
        ensures
            (final(self).phase(), action) == next(old(self).phase(), old(self).use_timer(), event),
            final(self).use_timer() == old(self).use_timer(),
            final(self).settings() == old(self).settings(),
            final(self).tokens() == old(self).tokens(),
            action == Action::Spawn ==> final(self).tokens() is Some,
    {
        proof {
            use_type_invariant(&*self);
        }
        let (phase, action) = advance(self.phase, self.use_timer, event);
        self.phase = phase;
        action
    }

    /// Where the run stands.
    pub fn current_phase(&self) -> (phase: Phase)
        ensures
            phase == self.phase(),
    {
        self.phase
    }

    /// Whether the run sends the start signal.
    pub fn uses_timer(&self) -> (use_timer: bool)
        ensures
            use_timer == self.use_timer(),
    {
        self.use_timer
    }

    /// The settings of the run.
    pub fn run_settings(&self) -> (settings: &Settings)
        ensures
            *settings == self.settings(),
    {
        &self.settings
    }

    /// The command to spawn, where the line named one.
    pub fn command(&self) -> (command: &Option<CommandSpec>)
        ensures
            optional_tokens(*command) == self.tokens(),
    {
        &self.command
    }
}

/// Computes the phase and the action that follow `event` in `phase`.
pub fn advance(phase: Phase, use_timer: bool, event: Event) -> (moved: (Phase, Action))
    ensures
        moved == next(phase, use_timer, event),
{
    match phase {
        Phase::Idle => match event {
            Event::ClientBuilt => if use_timer {
                (Phase::StartingTimer, Action::StartTimer)
            } else {
                (Phase::Spawned, Action::Spawn)
            },
            _ => conclude(Conclusion::Fatal(FatalError::ClientRejected)),
        },
        Phase::StartingTimer => match event {
            Event::TimerStarted => (Phase::Spawned, Action::Spawn),
            _ => conclude(Conclusion::Fatal(FatalError::TimerNotStarted)),
        },
        Phase::Spawned => match event {
            Event::ProcessEnded(ExecutionOutcome::Completed(code)) => if code == 0 {
                (Phase::Reporting(code), Action::ReportSuccess)
            } else {
                (Phase::Reporting(code), Action::ReportFailure)
            },
            Event::ProcessEnded(ExecutionOutcome::Interrupted) => conclude(
                Conclusion::Interrupted,
            ),
            _ => conclude(Conclusion::Fatal(FatalError::SpawnFailed)),
        },
        Phase::Reporting(code) => match event {
            Event::ReportDelivered => if code == 0 {
                conclude(Conclusion::Success)
            } else {
                conclude(Conclusion::Failure(code))
            },
            _ => conclude(Conclusion::Fatal(FatalError::ReportNotDelivered(code))),
        },
        Phase::Done(conclusion) => conclude(conclusion),
    }
}

fn conclude(conclusion: Conclusion) -> (ended: (Phase, Action))
    ensures
        ended == finish(conclusion),
{
    (Phase::Done(conclusion), Action::Finish(conclusion))
}

} // verus!
