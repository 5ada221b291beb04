use vs_updater::orchestrator::{
    exit_code, game_finding, Action, Event, Finding, Outcome, Phase, Run, Target,
};
use vs_updater::version::GameVersion;

fn ver(major: u32, minor: u32, patch: u32) -> GameVersion {
    GameVersion { major, minor, patch }
}

fn drive(target: Target, events: &[Event]) -> (Run, Vec<Action>) {
    let mut run = Run::new(target);
    let mut asked = Vec::new();
    for event in events {
        if let Some(action) = run.pending_action() {
            asked.push(action);
        }
        run = run.advance(*event);
    }
    (run, asked)
}

#[test]
fn a_run_begins_idle_and_asks_for_the_quarantine() {
    let run = Run::new(Target::Installation);
    assert_eq!(run.phase, Phase::Idle);
    assert_eq!(run.pending_action(), Some(Action::Quarantine));
    assert_eq!(run.outcome(), None);
}

#[test]
fn an_update_passes_through_every_phase_in_order() {
    let mut run = Run::new(Target::Mod);
    let steps = [
        (Action::Quarantine, Event::Succeeded, Phase::Quarantined),
        (Action::Resolve, Event::Resolved(Finding::Update), Phase::VersionResolved),
        (Action::Wipe, Event::Succeeded, Phase::Wiped),
        (Action::Download, Event::Succeeded, Phase::Downloaded),
        (Action::Extract, Event::Succeeded, Phase::Extracted),
        (Action::Restore, Event::Succeeded, Phase::Restored),
        (Action::Finalize, Event::Succeeded, Phase::Done),
    ];
    for (action, event, phase) in steps {
        assert_eq!(run.pending_action(), Some(action));
        assert_eq!(run.outcome(), None);
        run = run.advance(event);
        assert_eq!(run.phase, phase);
    }
    assert_eq!(run.pending_action(), None);
    assert_eq!(run.outcome(), Some(Outcome::Updated));
    assert_eq!(exit_code(Outcome::Updated), 0);
    assert!(!run.finalize_failed);
}

#[test]
fn nothing_to_do_restores_without_a_wipe() {
    for (finding, outcome) in
        [(Finding::UpToDate, Outcome::UpToDate), (Finding::NotFound, Outcome::NotFound)]
    {
        let (run, asked) = drive(
            Target::Installation,
            &[Event::Succeeded, Event::Resolved(finding), Event::Succeeded],
        );
        assert_eq!(asked, vec![Action::Quarantine, Action::Resolve, Action::Restore]);
        assert_eq!(run.phase, Phase::Done);
        assert_eq!(run.outcome(), Some(outcome));
        assert_eq!(exit_code(outcome), 0);
    }
}

#[test]
fn a_failure_before_the_wipe_is_a_safe_abort() {
    let (run, asked) = drive(Target::Installation, &[Event::Failed]);
    assert_eq!(asked, vec![Action::Quarantine]);
    assert_eq!(run.phase, Phase::Aborted);
    assert_eq!(run.failed_in, Some(Phase::Idle));
    assert_eq!(run.outcome(), Some(Outcome::AbortedSafely));
    let (run, _) = drive(Target::Installation, &[Event::Succeeded, Event::Failed]);
    assert_eq!(run.outcome(), Some(Outcome::AbortedSafely));
    assert_eq!(run.pending_action(), None);
    assert_eq!(exit_code(Outcome::AbortedSafely), 1);
}

#[test]
fn a_failure_from_the_wipe_on_needs_recovery() {
    let found = Event::Resolved(Finding::Update);
    let ok = Event::Succeeded;
    let cases: Vec<(Vec<Event>, Phase)> = vec![
        (vec![ok, found, Event::Failed], Phase::VersionResolved),
        (vec![ok, found, ok, Event::Failed], Phase::Wiped),
        (vec![ok, found, ok, ok, Event::Failed], Phase::Downloaded),
        (vec![ok, found, ok, ok, ok, Event::Failed], Phase::Extracted),
    ];
    for (events, failed_in) in cases {
        let (run, _) = drive(Target::Mod, &events);
        assert_eq!(run.phase, Phase::Aborted);
        assert_eq!(run.failed_in, Some(failed_in));
        assert_eq!(run.outcome(), Some(Outcome::RecoveryNeeded));
    }
    assert_eq!(exit_code(Outcome::RecoveryNeeded), 1);
}

#[test]
fn a_failed_closing_step_still_ends_the_run() {
    let found = Event::Resolved(Finding::Update);
    let ok = Event::Succeeded;
    let (run, _) = drive(Target::Mod, &[ok, found, ok, ok, ok, ok, Event::Failed]);
    assert_eq!(run.phase, Phase::Done);
    assert!(run.finalize_failed);
    assert_eq!(run.outcome(), Some(Outcome::Updated));
}

#[test]
fn an_event_that_is_not_waited_for_aborts() {
    let (run, _) = drive(Target::Mod, &[Event::Resolved(Finding::Update)]);
    assert_eq!(run.outcome(), Some(Outcome::AbortedSafely));
    let (run, _) = drive(Target::Mod, &[Event::Succeeded, Event::Succeeded]);
    assert_eq!(run.outcome(), Some(Outcome::AbortedSafely));
    let (run, _) = drive(
        Target::Mod,
        &[Event::Succeeded, Event::Resolved(Finding::Update), Event::Resolved(Finding::Update)],
    );
    assert_eq!(run.outcome(), Some(Outcome::RecoveryNeeded));
}

#[test]
fn a_run_that_has_ended_stays_as_it_is() {
    let (done, _) = drive(
        Target::Mod,
        &[Event::Succeeded, Event::Resolved(Finding::UpToDate), Event::Succeeded],
    );
    assert_eq!(done.advance(Event::Failed), done);
    assert_eq!(done.advance(Event::Succeeded), done);
    let (aborted, _) = drive(Target::Mod, &[Event::Failed]);
    assert_eq!(aborted.advance(Event::Succeeded), aborted);
}

#[test]
fn only_the_installation_waits_before_the_wipe() {
    assert_eq!(Run::new(Target::Installation).wipe_delay(), 5);
    assert_eq!(Run::new(Target::Mod).wipe_delay(), 0);
}

#[test]
fn the_end_of_a_search_is_read_against_the_installed_version() {
    assert_eq!(game_finding(ver(1, 19, 2), GameVersion::zero()), Finding::NotFound);
    assert_eq!(game_finding(ver(1, 19, 2), ver(1, 19, 2)), Finding::UpToDate);
    assert_eq!(game_finding(ver(1, 19, 2), ver(1, 19, 3)), Finding::Update);
    assert_eq!(game_finding(ver(0, 0, 0), ver(0, 0, 0)), Finding::NotFound);
}

#[test]
fn exit_codes() {
    assert_eq!(exit_code(Outcome::Updated), 0);
    assert_eq!(exit_code(Outcome::UpToDate), 0);
    assert_eq!(exit_code(Outcome::NotFound), 0);
    assert_eq!(exit_code(Outcome::AbortedSafely), 1);
    assert_eq!(exit_code(Outcome::RecoveryNeeded), 1);
}
