use hcwatch::pipeline::{
    advance, diagnostic_of, exit_status_of, Action, Conclusion, Event, ExecutionOutcome, FatalError,
    Phase, Pipeline, FATAL_EXIT_STATUS,
};
use hcwatch::settings::Settings;

fn settings() -> Settings {
    Settings::resolve(Some("2d0a34bd-854d-490e-be2c-1493f7053460".to_string()), None).unwrap()
}

/// Drives a pipeline with the given events and records every action.
fn drive(line: &str, use_timer: bool, events: &[Event]) -> (Vec<Action>, Phase) {
    let (mut pipeline, first) = Pipeline::begin(settings(), line, use_timer);
    let mut actions = vec![first];
    for event in events {
        actions.push(pipeline.step(*event));
    }
    (actions, pipeline.current_phase())
}

fn occurrences(actions: &[Action], wanted: Action) -> usize {
    actions.iter().filter(|a| **a == wanted).count()
}

#[test]
fn blank_command_fails_before_any_call() {
    for line in ["", " ", "    "] {
        let (pipeline, first) = Pipeline::begin(settings(), line, true);
        let missing = Conclusion::Fatal(FatalError::MissingCommand);
        assert_eq!(first, Action::Finish(missing));
        assert_eq!(pipeline.current_phase(), Phase::Done(missing));
        assert!(pipeline.command().is_none());
        assert_eq!(diagnostic_of(missing), Some("Command must be provided!"));
        assert_eq!(exit_status_of(missing), FATAL_EXIT_STATUS);
    }
}

#[test]
fn blank_command_stays_finished_whatever_follows() {
    let events = [
        Event::ClientBuilt,
        Event::TimerStarted,
        Event::ProcessEnded(ExecutionOutcome::Completed(0)),
        Event::ReportDelivered,
    ];
    let (actions, phase) = drive("  ", true, &events);
    let missing = Conclusion::Fatal(FatalError::MissingCommand);
    assert_eq!(actions, vec![Action::Finish(missing); 5]);
    assert_eq!(phase, Phase::Done(missing));
}

#[test]
fn begin_keeps_command_settings_and_timer() {
    let (pipeline, first) = Pipeline::begin(settings(), "ls -l", true);
    assert_eq!(first, Action::BuildClient);
    assert_eq!(pipeline.current_phase(), Phase::Idle);
    assert!(pipeline.uses_timer());
    assert_eq!(pipeline.run_settings().token(), "2d0a34bd-854d-490e-be2c-1493f7053460");
    let command = pipeline.command().as_ref().unwrap();
    assert_eq!(command.tokens(), &vec!["ls".to_string(), "-l".to_string()]);
}

#[test]
fn exit_zero_reports_success_once() {
    let events = [
        Event::ClientBuilt,
        Event::ProcessEnded(ExecutionOutcome::Completed(0)),
        Event::ReportDelivered,
    ];
    let (actions, phase) = drive("true", false, &events);
    assert_eq!(
        actions,
        vec![
            Action::BuildClient,
            Action::Spawn,
            Action::ReportSuccess,
            Action::Finish(Conclusion::Success),
        ]
    );
    assert_eq!(occurrences(&actions, Action::ReportSuccess), 1);
    assert_eq!(occurrences(&actions, Action::ReportFailure), 0);
    assert_eq!(occurrences(&actions, Action::StartTimer), 0);
    assert_eq!(phase, Phase::Done(Conclusion::Success));
    assert_eq!(exit_status_of(Conclusion::Success), 0);
    assert_eq!(diagnostic_of(Conclusion::Success), None);
}

#[test]
fn nonzero_exit_reports_failure_once_and_is_mirrored() {
    let events = [
        Event::ClientBuilt,
        Event::ProcessEnded(ExecutionOutcome::Completed(3)),
        Event::ReportDelivered,
    ];
    let (actions, phase) = drive("false", false, &events);
    assert_eq!(
        actions,
        vec![
            Action::BuildClient,
            Action::Spawn,
            Action::ReportFailure,
            Action::Finish(Conclusion::Failure(3)),
        ]
    );
    assert_eq!(occurrences(&actions, Action::ReportFailure), 1);
    assert_eq!(occurrences(&actions, Action::ReportSuccess), 0);
    assert_eq!(phase, Phase::Done(Conclusion::Failure(3)));
    assert_eq!(exit_status_of(Conclusion::Failure(3)), 3);
    assert_eq!(exit_status_of(Conclusion::Failure(-7)), -7);
    assert_eq!(diagnostic_of(Conclusion::Failure(3)), None);
}

#[test]
fn interrupted_command_reports_nothing() {
    let events = [Event::ClientBuilt, Event::ProcessEnded(ExecutionOutcome::Interrupted)];
    let (actions, phase) = drive("sleep 100", false, &events);
    assert_eq!(
        actions,
        vec![Action::BuildClient, Action::Spawn, Action::Finish(Conclusion::Interrupted)]
    );
    assert_eq!(occurrences(&actions, Action::ReportSuccess), 0);
    assert_eq!(occurrences(&actions, Action::ReportFailure), 0);
    assert_eq!(phase, Phase::Done(Conclusion::Interrupted));
    assert_eq!(diagnostic_of(Conclusion::Interrupted), Some("Interrupted!"));
    assert_eq!(exit_status_of(Conclusion::Interrupted), 0);
}

#[test]
fn timer_is_started_before_the_spawn() {
    let events = [
        Event::ClientBuilt,
        Event::TimerStarted,
        Event::ProcessEnded(ExecutionOutcome::Completed(0)),
        Event::ReportDelivered,
    ];
    let (actions, _) = drive("make all", true, &events);
    assert_eq!(
        actions,
        vec![
            Action::BuildClient,
            Action::StartTimer,
            Action::Spawn,
            Action::ReportSuccess,
            Action::Finish(Conclusion::Success),
        ]
    );
    let start = actions.iter().position(|a| *a == Action::StartTimer).unwrap();
    let spawn = actions.iter().position(|a| *a == Action::Spawn).unwrap();
    assert!(start < spawn);
}

#[test]
fn failed_start_signal_keeps_the_command_from_running() {
    let events = [Event::ClientBuilt, Event::TimerFailed];
    let (actions, phase) = drive("make all", true, &events);
    let fault = Conclusion::Fatal(FatalError::TimerNotStarted);
    assert_eq!(actions, vec![Action::BuildClient, Action::StartTimer, Action::Finish(fault)]);
    assert_eq!(occurrences(&actions, Action::Spawn), 0);
    assert_eq!(phase, Phase::Done(fault));
    assert_eq!(exit_status_of(fault), FATAL_EXIT_STATUS);
    assert_eq!(diagnostic_of(fault), Some("The start signal could not be sent"));
}

#[test]
fn rejected_client_ends_the_run() {
    let (actions, phase) = drive("ls", true, &[Event::ClientRejected]);
    let fault = Conclusion::Fatal(FatalError::ClientRejected);
    assert_eq!(actions, vec![Action::BuildClient, Action::Finish(fault)]);
    assert_eq!(phase, Phase::Done(fault));
    assert_eq!(exit_status_of(fault), FATAL_EXIT_STATUS);
    assert_eq!(diagnostic_of(fault), Some("The monitoring client could not be set up"));
}

#[test]
fn command_that_cannot_start_reports_nothing() {
    let (actions, phase) = drive("/no/such/program", false, &[Event::ClientBuilt, Event::SpawnFailed]);
    let fault = Conclusion::Fatal(FatalError::SpawnFailed);
    assert_eq!(actions, vec![Action::BuildClient, Action::Spawn, Action::Finish(fault)]);
    assert_eq!(phase, Phase::Done(fault));
    assert_eq!(exit_status_of(fault), FATAL_EXIT_STATUS);
    assert_eq!(diagnostic_of(fault), Some("The command could not be started"));
}

#[test]
fn undelivered_report_is_a_fault_that_keeps_a_nonzero_code() {
    let events = [
        Event::ClientBuilt,
        Event::ProcessEnded(ExecutionOutcome::Completed(9)),
        Event::ReportFailed,
    ];
    let (actions, phase) = drive("job", false, &events);
    let fault = Conclusion::Fatal(FatalError::ReportNotDelivered(9));
    assert_eq!(actions.last(), Some(&Action::Finish(fault)));
    assert_eq!(phase, Phase::Done(fault));
    assert_eq!(exit_status_of(fault), 9);
    assert_eq!(
        exit_status_of(Conclusion::Fatal(FatalError::ReportNotDelivered(0))),
        FATAL_EXIT_STATUS
    );
    assert_eq!(diagnostic_of(fault), Some("The outcome could not be reported"));
}

#[test]
fn an_event_out_of_turn_counts_as_a_failure_of_the_pending_action() {
    assert_eq!(
        advance(Phase::Idle, true, Event::ReportDelivered),
        (
            Phase::Done(Conclusion::Fatal(FatalError::ClientRejected)),
            Action::Finish(Conclusion::Fatal(FatalError::ClientRejected))
        )
    );
    assert_eq!(
        advance(Phase::Spawned, false, Event::TimerStarted),
        (
            Phase::Done(Conclusion::Fatal(FatalError::SpawnFailed)),
            Action::Finish(Conclusion::Fatal(FatalError::SpawnFailed))
        )
    );
    assert_eq!(
        advance(Phase::Reporting(2), false, Event::ClientBuilt),
        (
            Phase::Done(Conclusion::Fatal(FatalError::ReportNotDelivered(2))),
            Action::Finish(Conclusion::Fatal(FatalError::ReportNotDelivered(2)))
        )
    );
}

#[test]
fn a_finished_run_stays_finished() {
    for event in [Event::ClientBuilt, Event::ProcessEnded(ExecutionOutcome::Completed(0))] {
        assert_eq!(
            advance(Phase::Done(Conclusion::Failure(4)), true, event),
            (Phase::Done(Conclusion::Failure(4)), Action::Finish(Conclusion::Failure(4)))
        );
    }
}

#[test]
fn at_most_one_report_over_many_event_orders() {
    let all = [
        Event::ClientBuilt,
        Event::ClientRejected,
        Event::TimerStarted,
        Event::TimerFailed,
        Event::ProcessEnded(ExecutionOutcome::Completed(0)),
        Event::ProcessEnded(ExecutionOutcome::Completed(1)),
        Event::ProcessEnded(ExecutionOutcome::Interrupted),
        Event::SpawnFailed,
        Event::ReportDelivered,
        Event::ReportFailed,
    ];
    for use_timer in [false, true] {
        for a in all {
            for b in all {
                for c in all {
                    for d in all {
                        let (actions, _) = drive("job", use_timer, &[a, b, c, d]);
                        let reports = occurrences(&actions, Action::ReportSuccess)
                            + occurrences(&actions, Action::ReportFailure);
                        assert!(reports <= 1);
                        assert!(occurrences(&actions, Action::Spawn) <= 1);
                        if let Some(spawn) = actions.iter().position(|x| *x == Action::Spawn) {
                            let start = actions.iter().position(|x| *x == Action::StartTimer);
                            assert_eq!(start.is_some(), use_timer);
                            assert!(start.map_or(true, |s| s < spawn));
                        }
                    }
                }
            }
        }
    }
}
