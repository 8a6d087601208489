//! Whole runs of the pipeline: the actions that a sequence of events draws
//! from it, and what holds of them whatever the events are.

use crate::command::is_blank;
use crate::pipeline::{
    diagnostic, exit_status, finish, initial_action, initial_phase, next, Action, Conclusion,
    Event, ExecutionOutcome, FatalError, Phase,
};
use vstd::prelude::*;

verus! {

/// The actions that answer `events`, one for each event, from `phase` on.
pub open spec fn answers(phase: Phase, use_timer: bool, events: Seq<Event>) -> Seq<Action>
    decreases events.len(),
{
    if events.len() == 0 {
        Seq::<Action>::empty()
    } else {
        let moved = next(phase, use_timer, events[0]);
        seq![moved.1] + answers(moved.0, use_timer, events.skip(1))
    }
}

/// The phase reached from `phase` after `events`.
pub open spec fn phase_after(phase: Phase, use_timer: bool, events: Seq<Event>) -> Phase
    decreases events.len(),
{
    if events.len() == 0 {
        phase
    } else {
        phase_after(next(phase, use_timer, events[0]).0, use_timer, events.skip(1))
    }
}

/// How the command ended, as far as the run from `phase` learns it from
/// `events`: the outcome that arrives while the command runs.
pub open spec fn observed_outcome(phase: Phase, use_timer: bool, events: Seq<Event>) -> Option<
    ExecutionOutcome,
>
    decreases events.len(),
{
    if events.len() == 0 {
        None
    } else {
        match (phase, events[0]) {
            (Phase::Spawned, Event::ProcessEnded(outcome)) => Some(outcome),
            (Phase::Spawned, _) => None,
            _ => observed_outcome(
                next(phase, use_timer, events[0]).0,
                use_timer,
                events.skip(1),
            ),
        }
    }
}

/// All actions of a run on `line`: the first one, then the answers to
/// `events`.
pub open spec fn trace(line: Seq<char>, use_timer: bool, events: Seq<Event>) -> Seq<Action> {
    seq![initial_action(line)] + answers(initial_phase(line), use_timer, events)
}

/// How often `wanted` occurs among `actions`.
pub open spec fn count(actions: Seq<Action>, wanted: Action) -> nat
    decreases actions.len(),
{
    if actions.len() == 0 {
        0
    } else {
        count(actions.drop_last(), wanted) + if actions.last() == wanted {
            1nat
        } else {
            0nat
        }
    }
}

/// Whether an action reaches the monitoring service or the system: anything
/// but the end of the run.
pub open spec fn is_effect(action: Action) -> bool {
    !(action is Finish)
}

/// How far a phase is from the start of a run.
spec fn rank(phase: Phase) -> int {
    match phase {
        Phase::Idle => 0,
        Phase::StartingTimer => 1,
        Phase::Spawned => 2,
        Phase::Reporting(_) => 3,
        Phase::Done(_) => 4,
    }
}

/// Counting over an action put in front.
proof fn lemma_count_front(first: Action, rest: Seq<Action>, wanted: Action)
    ensures
        count(seq![first] + rest, wanted) == count(rest, wanted) + if first == wanted {
            1nat
        } else {
            0nat
        },
    decreases rest.len(),
{
    let whole = seq![first] + rest;
    if rest.len() == 0 {
        assert(whole.drop_last() =~= Seq::<Action>::empty());
        assert(count(whole.drop_last(), wanted) == 0);
        assert(whole.last() == first);
    } else {
        lemma_count_front(first, rest.drop_last(), wanted);
        assert(whole.drop_last() =~= seq![first] + rest.drop_last());
        assert(whole.last() == rest.last());
    }
}

/// An action that does not occur has count 0, and the other way round.
proof fn lemma_count_zero(actions: Seq<Action>, wanted: Action)
    ensures
        count(actions, wanted) == 0 <==> forall|i: int|
            0 <= i < actions.len() ==> actions[i] != wanted,
    decreases actions.len(),
{
    if actions.len() > 0 {
        lemma_count_zero(actions.drop_last(), wanted);
        if count(actions, wanted) == 0 {
            assert forall|i: int| 0 <= i < actions.len() implies actions[i] != wanted by {
                if i < actions.len() - 1 {
                    assert(actions.drop_last()[i] == actions[i]);
                }
            }
        } else if actions.last() != wanted {
            let i = choose|i: int|
                0 <= i < actions.drop_last().len() && actions.drop_last()[i] == wanted;
            assert(actions[i] == wanted);
        }
    }
}

/// What holds of the answers from any phase on: the shape of the rest of a
/// run, by how far the run has come.
proof fn lemma_answers(phase: Phase, use_timer: bool, events: Seq<Event>)
    ensures
        answers(phase, use_timer, events).len() == events.len(),
        count(answers(phase, use_timer, events), Action::BuildClient) == 0,
        count(answers(phase, use_timer, events), Action::ReportSuccess) + count(
            answers(phase, use_timer, events),
            Action::ReportFailure,
        ) <= 1,
        count(answers(phase, use_timer, events), Action::Spawn) <= 1,
        count(answers(phase, use_timer, events), Action::StartTimer) <= 1,
        rank(phase) >= 1 || !use_timer ==> count(
            answers(phase, use_timer, events),
            Action::StartTimer,
        ) == 0,
        rank(phase) >= 2 ==> count(answers(phase, use_timer, events), Action::Spawn) == 0,
        rank(phase) >= 3 ==> forall|i: int|
            0 <= i < events.len() ==> answers(phase, use_timer, events)[i] is Finish,
        rank(phase) >= 3 ==> observed_outcome(phase, use_timer, events) is None,
        rank(phase_after(phase, use_timer, events)) >= rank(phase),
        count(answers(phase, use_timer, events), Action::ReportSuccess) == 1 <==> (exists|
            code: i32,
        |
            code == 0 && observed_outcome(phase, use_timer, events) == Some(
                ExecutionOutcome::Completed(code),
            )),
        count(answers(phase, use_timer, events), Action::ReportFailure) == 1 <==> (exists|
            code: i32,
        |
            code != 0 && observed_outcome(phase, use_timer, events) == Some(
                ExecutionOutcome::Completed(code),
            )),
        forall|code: i32, conclusion: Conclusion|
            code != 0 && observed_outcome(phase, use_timer, events) == Some(
                ExecutionOutcome::Completed(code),
            ) && phase_after(phase, use_timer, events) == Phase::Done(conclusion)
                ==> exit_status(conclusion) == code,
        forall|code: i32, conclusion: Conclusion|
            phase == Phase::Reporting(code) && code != 0 && phase_after(phase, use_timer, events)
                == Phase::Done(conclusion) ==> exit_status(conclusion) == code,
        observed_outcome(phase, use_timer, events) == Some(ExecutionOutcome::Interrupted)
            ==> phase_after(phase, use_timer, events) == Phase::Done(Conclusion::Interrupted),
        forall|conclusion: Conclusion|
            phase == Phase::Done(conclusion) ==> phase_after(phase, use_timer, events) == phase
                && forall|i: int|
                0 <= i < events.len() ==> answers(phase, use_timer, events)[i] == Action::Finish(
                    conclusion,
                ),
        phase == Phase::Idle && count(answers(phase, use_timer, events), Action::Spawn) == 1
            ==> events.len() >= 1 && events[0] == Event::ClientBuilt && (use_timer
            ==> events.len() >= 2 && events[1] == Event::TimerStarted),
        phase == Phase::StartingTimer && count(answers(phase, use_timer, events), Action::Spawn)
            == 1 ==> events.len() >= 1 && events[0] == Event::TimerStarted,
        rank(phase) <= 1 && observed_outcome(phase, use_timer, events) is Some ==> count(
            answers(phase, use_timer, events),
            Action::Spawn,
        ) == 1,
        forall|j: int|
            phase == Phase::Idle && use_timer && 0 <= j < events.len() && #[trigger] answers(
                phase,
                use_timer,
                events,
            )[j] == Action::Spawn ==> j >= 1 && answers(phase, use_timer, events)[0]
                == Action::StartTimer,
    decreases events.len(),
{
    let all = answers(phase, use_timer, events);
    if events.len() > 0 {
        let moved = next(phase, use_timer, events[0]);
        let rest = answers(moved.0, use_timer, events.skip(1));
        lemma_answers(moved.0, use_timer, events.skip(1));
        lemma_count_front(moved.1, rest, Action::BuildClient);
        lemma_count_front(moved.1, rest, Action::StartTimer);
        lemma_count_front(moved.1, rest, Action::Spawn);
        lemma_count_front(moved.1, rest, Action::ReportSuccess);
        lemma_count_front(moved.1, rest, Action::ReportFailure);
        lemma_count_zero(rest, Action::Spawn);
        assert(all =~= seq![moved.1] + rest);
        assert forall|i: int| 0 <= i < events.len() implies all[i] == if i == 0 {
            moved.1
        } else {
            rest[i - 1]
        } by {}
        if phase == Phase::Spawned {
            if let Event::ProcessEnded(ExecutionOutcome::Completed(code)) = events[0] {
                assert(observed_outcome(phase, use_timer, events) == Some(
                    ExecutionOutcome::Completed(code),
                ));
            }
        }
    }
}

/// A blank command line ends the run before anything is sent or spawned: the
/// first action is the end of the run with `MissingCommand`, and so is every
/// later one, whatever events follow.
pub proof fn law_blank_line_has_no_effect(line: Seq<char>, use_timer: bool, events: Seq<Event>)
    requires
        is_blank(line),
    ensures
        trace(line, use_timer, events).len() == events.len() + 1,
        forall|i: int|
            0 <= i <= events.len() ==> trace(line, use_timer, events)[i] == Action::Finish(
                Conclusion::Fatal(FatalError::MissingCommand),
            ),
        forall|i: int| 0 <= i <= events.len() ==> !is_effect(trace(line, use_timer, events)[i]),
{
    lemma_answers(initial_phase(line), use_timer, events);
}

/// In every run the outcome is reported at most once: never a success and a
/// failure both, never one of them twice. The command is spawned at most
/// once, and the client is asked for once, at the start, or not at all.
pub proof fn law_at_most_one_report(line: Seq<char>, use_timer: bool, events: Seq<Event>)
    ensures
        count(trace(line, use_timer, events), Action::ReportSuccess) + count(
            trace(line, use_timer, events),
            Action::ReportFailure,
        ) <= 1,
        count(trace(line, use_timer, events), Action::Spawn) <= 1,
        count(trace(line, use_timer, events), Action::BuildClient) <= 1,
{
    let first = initial_action(line);
    let rest = answers(initial_phase(line), use_timer, events);
    lemma_answers(initial_phase(line), use_timer, events);
    lemma_count_front(first, rest, Action::ReportSuccess);
    lemma_count_front(first, rest, Action::ReportFailure);
    lemma_count_front(first, rest, Action::Spawn);
    lemma_count_front(first, rest, Action::BuildClient);
}

/// When the command exits with code 0, the run reports a success exactly
/// once and never a failure. Without the timer that report is the only
/// signal to the monitoring service.
pub proof fn law_exit_zero_reports_success(line: Seq<char>, use_timer: bool, events: Seq<Event>)
    requires
        observed_outcome(initial_phase(line), use_timer, events) == Some(
            ExecutionOutcome::Completed(0),
        ),
    ensures
        count(trace(line, use_timer, events), Action::ReportSuccess) == 1,
        count(trace(line, use_timer, events), Action::ReportFailure) == 0,
        !use_timer ==> count(trace(line, use_timer, events), Action::StartTimer) == 0,
{
    let first = initial_action(line);
    let rest = answers(initial_phase(line), use_timer, events);
    lemma_answers(initial_phase(line), use_timer, events);
    lemma_count_front(first, rest, Action::ReportSuccess);
    lemma_count_front(first, rest, Action::ReportFailure);
    lemma_count_front(first, rest, Action::StartTimer);
}

/// When the command exits with a code other than 0, the run reports a
/// failure exactly once and never a success, and once the run is over the
/// tool's exit status is that code. Without the timer that report is the
/// only signal to the monitoring service.
pub proof fn law_nonzero_exit_reports_failure(
    line: Seq<char>,
    use_timer: bool,
    events: Seq<Event>,
    code: i32,
)
    requires
        code != 0,
        observed_outcome(initial_phase(line), use_timer, events) == Some(
            ExecutionOutcome::Completed(code),
        ),
    ensures
        count(trace(line, use_timer, events), Action::ReportFailure) == 1,
        count(trace(line, use_timer, events), Action::ReportSuccess) == 0,
        !use_timer ==> count(trace(line, use_timer, events), Action::StartTimer) == 0,
        forall|conclusion: Conclusion|
            phase_after(initial_phase(line), use_timer, events) == Phase::Done(conclusion)
                ==> exit_status(conclusion) == code,
{
    let first = initial_action(line);
    let rest = answers(initial_phase(line), use_timer, events);
    lemma_answers(initial_phase(line), use_timer, events);
    lemma_count_front(first, rest, Action::ReportSuccess);
    lemma_count_front(first, rest, Action::ReportFailure);
    lemma_count_front(first, rest, Action::StartTimer);
}

/// When the command ends without an exit code, the run reports neither a
/// success nor a failure; it ends as interrupted, which calls for a line on
/// the error stream.
pub proof fn law_interrupted_reports_nothing(line: Seq<char>, use_timer: bool, events: Seq<Event>)
    requires
        observed_outcome(initial_phase(line), use_timer, events) == Some(
            ExecutionOutcome::Interrupted,
        ),
    ensures
        count(trace(line, use_timer, events), Action::ReportSuccess) == 0,
        count(trace(line, use_timer, events), Action::ReportFailure) == 0,
        phase_after(initial_phase(line), use_timer, events) == Phase::Done(
            Conclusion::Interrupted,
        ),
        diagnostic(Conclusion::Interrupted) is Some,
{
    let first = initial_action(line);
    let rest = answers(initial_phase(line), use_timer, events);
    lemma_answers(initial_phase(line), use_timer, events);
    lemma_count_front(first, rest, Action::ReportSuccess);
    lemma_count_front(first, rest, Action::ReportFailure);
}

/// Each step waits for the one before it. The command is spawned only once
/// the client was made and, with the timer, the start signal was confirmed.
/// An outcome is reported only after the command was spawned and has ended
/// with an exit code.
pub proof fn law_each_step_waits(line: Seq<char>, use_timer: bool, events: Seq<Event>)
    ensures
        count(trace(line, use_timer, events), Action::Spawn) == 1 ==> !is_blank(line)
            && events.len() >= 1 && events[0] == Event::ClientBuilt && (use_timer
            ==> events.len() >= 2 && events[1] == Event::TimerStarted),
        count(trace(line, use_timer, events), Action::ReportSuccess) + count(
            trace(line, use_timer, events),
            Action::ReportFailure,
        ) == 1 ==> count(trace(line, use_timer, events), Action::Spawn) == 1 && (exists|
            code: i32,
        |
            observed_outcome(initial_phase(line), use_timer, events) == Some(
                ExecutionOutcome::Completed(code),
            )),
{
    let first = initial_action(line);
    let rest = answers(initial_phase(line), use_timer, events);
    lemma_answers(initial_phase(line), use_timer, events);
    lemma_count_front(first, rest, Action::ReportSuccess);
    lemma_count_front(first, rest, Action::ReportFailure);
    lemma_count_front(first, rest, Action::Spawn);
}

/// With the timer, the start signal is sent strictly before the command is
/// spawned: wherever a run spawns the command, an earlier action of the same
/// run is the start signal. Without the timer no start signal is sent.
pub proof fn law_timer_starts_before_spawn(
    line: Seq<char>,
    use_timer: bool,
    events: Seq<Event>,
    spawn_at: int,
)
    requires
        0 <= spawn_at < trace(line, use_timer, events).len(),
        trace(line, use_timer, events)[spawn_at] == Action::Spawn,
    ensures
        use_timer ==> exists|start_at: int|
            0 <= start_at < spawn_at && trace(line, use_timer, events)[start_at]
                == Action::StartTimer,
        !use_timer ==> count(trace(line, use_timer, events), Action::StartTimer) == 0,
{
    let first = initial_action(line);
    let rest = answers(initial_phase(line), use_timer, events);
    lemma_answers(initial_phase(line), use_timer, events);
    lemma_count_front(first, rest, Action::StartTimer);
    if use_timer {
        assert(spawn_at >= 1);
        assert(rest[spawn_at - 1] == Action::Spawn);
        if is_blank(line) {
            assert(rest[spawn_at - 1] is Finish);
        } else {
            assert(rest[0] == Action::StartTimer);
            assert(trace(line, use_timer, events)[1] == Action::StartTimer);
        }
    }
}

} // verus!
