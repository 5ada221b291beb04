use crate::version::{zero_version, GameVersion};
use vstd::prelude::*;

verus! {

/// What is being replaced.
#[derive(Clone, Copy, Debug, PartialEq, Eq, Structural)]
pub enum Target {
    /// The game installation.
    Installation,
    /// One mod directory.
    Mod,
}

/// How far a replacement has come.
#[derive(Clone, Copy, Debug, PartialEq, Eq, Structural)]
pub enum Phase {
    Idle,
    Quarantined,
    VersionResolved,
    Wiped,
    Downloaded,
    Extracted,
    Restored,
    Done,
    Aborted,
}

/// What the look for a newer release brought.
#[derive(Clone, Copy, Debug, PartialEq, Eq, Structural)]
pub enum Finding {
    /// A newer release exists and is to be installed.
    Update,
    /// The installed release is the latest.
    UpToDate,
    /// No release was found at all.
    NotFound,
}

/// What the step that was asked for came to.
#[derive(Clone, Copy, Debug, PartialEq, Eq, Structural)]
pub enum Event {
    /// The step was carried out.
    Succeeded,
    /// The step failed.
    Failed,
    /// The look for a newer release ended with this finding.
    Resolved(Finding),
}

/// The step to carry out next.
#[derive(Clone, Copy, Debug, PartialEq, Eq, Structural)]
pub enum Action {
    /// Put the ignored entries aside.
    Quarantine,
    /// Read what is installed and look for a newer release.
    Resolve,
    /// Delete the entries of the target directory.
    Wipe,
    /// Fetch the archive into the target directory.
    Download,
    /// Unpack the archive in place.
    Extract,
    /// Bring the entries that were put aside back and delete what is left over.
    Restore,
    /// Close the run: for a mod, rewrite its record and rename its directory.
    Finalize,
}

/// How a replacement ended.
#[derive(Clone, Copy, Debug, PartialEq, Eq, Structural)]
pub enum Outcome {
    /// The new release is in place.
    Updated,
    /// Nothing was to be done: the installed release is the latest.
    UpToDate,
    /// Nothing was to be done: no release was found.
    NotFound,
    /// A step failed before anything was deleted.
    AbortedSafely,
    /// A step failed once deleting had begun; the directory has to be repaired by hand.
    RecoveryNeeded,
}

/// One replacement under way.
#[derive(Clone, Copy, Debug, PartialEq, Eq, Structural)]
pub struct Run {
    pub target: Target,
    pub phase: Phase,
    /// What the look for a newer release brought, once it has ended.
    pub finding: Option<Finding>,
    /// The phase in which a step failed, once one has.
    pub failed_in: Option<Phase>,
    /// Whether the closing step of a finished run failed.
    pub finalize_failed: bool,
}

/// A run that has not begun.
pub open spec fn initial_run(target: Target) -> Run {
    Run { target, phase: Phase::Idle, finding: None, failed_in: None, finalize_failed: false }
}

/// The step that a run waits for, if it has not ended.
pub open spec fn pending_action_spec(run: Run) -> Option<Action> {
    match run.phase {
        Phase::Idle => Some(Action::Quarantine),
        Phase::Quarantined => match run.finding {
            None => Some(Action::Resolve),
            Some(_) => Some(Action::Restore),
        },
        Phase::VersionResolved => Some(Action::Wipe),
        Phase::Wiped => Some(Action::Download),
        Phase::Downloaded => Some(Action::Extract),
        Phase::Extracted => Some(Action::Restore),
        Phase::Restored => Some(Action::Finalize),
        Phase::Done => None,
        Phase::Aborted => None,
    }
}

/// The run as it is once its phase is `phase`.
pub open spec fn moved_to(run: Run, phase: Phase) -> Run {
    Run { phase, ..run }
}

/// The run as it is once a step has failed in its present phase.
pub open spec fn aborted(run: Run) -> Run {
    Run { phase: Phase::Aborted, failed_in: Some(run.phase), ..run }
}

/// The run after an event. A step that succeeds takes the run to the next
/// phase. A finding of "nothing to do" keeps the run where the entries are
/// put aside, so that they are brought back and the run ends without a wipe.
/// A closing step that fails still ends the run. Any other failure, and any
/// event that the phase does not wait for, aborts the run. A run that has
/// ended stays as it is.
pub open spec fn advance_spec(run: Run, event: Event) -> Run {
    match run.phase {
        Phase::Idle => match event {
            Event::Succeeded => moved_to(run, Phase::Quarantined),
            _ => aborted(run),
        },
        Phase::Quarantined => match run.finding {
            None => match event {
                Event::Resolved(Finding::Update) => Run {
                    phase: Phase::VersionResolved,
                    finding: Some(Finding::Update),
                    ..run
                },
                Event::Resolved(finding) => Run { finding: Some(finding), ..run },
                _ => aborted(run),
            },
            Some(_) => match event {
                Event::Succeeded => moved_to(run, Phase::Done),
                _ => aborted(run),
            },
        },
        Phase::VersionResolved => match event {
            Event::Succeeded => moved_to(run, Phase::Wiped),
            _ => aborted(run),
        },
        Phase::Wiped => match event {
            Event::Succeeded => moved_to(run, Phase::Downloaded),
            _ => aborted(run),
        },
        Phase::Downloaded => match event {
            Event::Succeeded => moved_to(run, Phase::Extracted),
            _ => aborted(run),
        },
        Phase::Extracted => match event {
            Event::Succeeded => moved_to(run, Phase::Restored),
            _ => aborted(run),
        },
        Phase::Restored => match event {
            Event::Succeeded => moved_to(run, Phase::Done),
            Event::Failed => Run { phase: Phase::Done, finalize_failed: true, ..run },
            Event::Resolved(_) => aborted(run),
        },
        Phase::Done => run,
        Phase::Aborted => run,
    }
}

/// Whether deleting may have begun by the time a step fails in `phase`.
pub open spec fn past_safe_point(phase: Phase) -> bool {
    match phase {
        Phase::Idle => false,
        Phase::Quarantined => false,
        _ => true,
    }
}

/// How a run ended, if it has.
pub open spec fn outcome_spec(run: Run) -> Option<Outcome> {
    match run.phase {
        Phase::Done => match run.finding {
            Some(Finding::UpToDate) => Some(Outcome::UpToDate),
            Some(Finding::NotFound) => Some(Outcome::NotFound),
            _ => Some(Outcome::Updated),
        },
        Phase::Aborted => match run.failed_in {
            Some(phase) => if past_safe_point(phase) {
                Some(Outcome::RecoveryNeeded)
            } else {
                Some(Outcome::AbortedSafely)
            },
            None => Some(Outcome::RecoveryNeeded),
        },
        _ => None,
    }
}

/// The exit code for an outcome: zero unless the run was aborted.
pub open spec fn exit_code_spec(outcome: Outcome) -> i32 {
    match outcome {
        Outcome::Updated => 0,
        Outcome::UpToDate => 0,
        Outcome::NotFound => 0,
        Outcome::AbortedSafely => 1,
        Outcome::RecoveryNeeded => 1,
    }
}

/// The seconds to wait, in sight of the operator, before a wipe begins.
pub open spec fn wipe_delay_spec(target: Target) -> u64 {
    match target {
        Target::Installation => 5,
        Target::Mod => 0,
    }
}

/// What a search that ended with `latest` means for an installation at
/// `installed`: nothing was found if `latest` is all-zero, nothing is to be
/// done if it is the installed version, and else it is to be installed.
pub open spec fn game_finding_spec(installed: GameVersion, latest: GameVersion) -> Finding {
    if latest == zero_version() {
        Finding::NotFound
    } else if latest == installed {
        Finding::UpToDate
    } else {
        Finding::Update
    }
}

/// The run after a sequence of events.
pub open spec fn run_after(target: Target, events: Seq<Event>) -> Run
    decreases events.len(),
{
    if events.len() == 0 {
        initial_run(target)
    } else {
        advance_spec(run_after(target, events.drop_last()), events.last())
    }
}

impl Run {
    /// A run that has not begun.
    pub fn new(target: Target) -> (out: Run)
        ensures
            out == initial_run(target),
    {
        Run { target, phase: Phase::Idle, finding: None, failed_in: None, finalize_failed: false }
    }

    /// The step to carry out next; `None` once the run has ended.
    pub fn pending_action(&self) -> (out: Option<Action>)
        ensures
            out == pending_action_spec(*self),
    {
        match self.phase {
            Phase::Idle => Some(Action::Quarantine),
            Phase::Quarantined => match self.finding {
                None => Some(Action::Resolve),
                Some(_) => Some(Action::Restore),
            },
            Phase::VersionResolved => Some(Action::Wipe),
            Phase::Wiped => Some(Action::Download),
            Phase::Downloaded => Some(Action::Extract),
            Phase::Extracted => Some(Action::Restore),
            Phase::Restored => Some(Action::Finalize),
            Phase::Done => None,
            Phase::Aborted => None,
        }
    }

    fn abort(&self) -> (out: Run)
        ensures
            out == aborted(*self),
    {
        Run {
            target: self.target,
            phase: Phase::Aborted,
            finding: self.finding,
            failed_in: Some(self.phase),
            finalize_failed: self.finalize_failed,
        }
    }

    fn move_to(&self, phase: Phase) -> (out: Run)
        ensures
            out == moved_to(*self, phase),
    {
        Run {
            target: self.target,
            phase,
            finding: self.finding,
            failed_in: self.failed_in,
            finalize_failed: self.finalize_failed,
        }
    }

    /// Takes in what the pending step came to.
    pub fn advance(&self, event: Event) -> (out: Run)
        ensures
            out == advance_spec(*self, event),
    {
        match self.phase {
            Phase::Idle => match event {
                Event::Succeeded => self.move_to(Phase::Quarantined),
                _ => self.abort(),
            },
            Phase::Quarantined => match self.finding {
                None => match event {
                    Event::Resolved(Finding::Update) => Run {
                        target: self.target,
                        phase: Phase::VersionResolved,
                        finding: Some(Finding::Update),
                        failed_in: self.failed_in,
                        finalize_failed: self.finalize_failed,
                    },
                    Event::Resolved(finding) => Run {
                        target: self.target,
                        phase: self.phase,
                        finding: Some(finding),
                        failed_in: self.failed_in,
                        finalize_failed: self.finalize_failed,
                    },
                    _ => self.abort(),
                },
                Some(_) => match event {
                    Event::Succeeded => self.move_to(Phase::Done),
                    _ => self.abort(),
                },
            },
            Phase::VersionResolved => match event {
                Event::Succeeded => self.move_to(Phase::Wiped),
                _ => self.abort(),
            },
            Phase::Wiped => match event {
                Event::Succeeded => self.move_to(Phase::Downloaded),
                _ => self.abort(),
            },
            Phase::Downloaded => match event {
                Event::Succeeded => self.move_to(Phase::Extracted),
                _ => self.abort(),
            },
            Phase::Extracted => match event {
                Event::Succeeded => self.move_to(Phase::Restored),
                _ => self.abort(),
            },
            Phase::Restored => match event {
                Event::Succeeded => self.move_to(Phase::Done),
                Event::Failed => Run {
                    target: self.target,
                    phase: Phase::Done,
                    finding: self.finding,
                    failed_in: self.failed_in,
                    finalize_failed: true,
                },
                Event::Resolved(_) => self.abort(),
            },
            Phase::Done => *self,
            Phase::Aborted => *self,
        }
    }

    /// How the run ended; `None` while it is under way.
    pub fn outcome(&self) -> (out: Option<Outcome>)
        ensures
            out == outcome_spec(*self),
    {
        match self.phase {
            Phase::Done => match self.finding {
                Some(Finding::UpToDate) => Some(Outcome::UpToDate),
                Some(Finding::NotFound) => Some(Outcome::NotFound),
                _ => Some(Outcome::Updated),
            },
            Phase::Aborted => match self.failed_in {
                Some(Phase::Idle) => Some(Outcome::AbortedSafely),
                Some(Phase::Quarantined) => Some(Outcome::AbortedSafely),
                _ => Some(Outcome::RecoveryNeeded),
            },
            _ => None,
        }
    }

    /// The seconds to wait before the wipe of this run's target begins.
    pub fn wipe_delay(&self) -> (out: u64)
        ensures
            out == wipe_delay_spec(self.target),
    {
        match self.target {
            Target::Installation => 5,
            Target::Mod => 0,
        }
    }
}

/// The exit code that reports an outcome.
pub fn exit_code(outcome: Outcome) -> (out: i32)
    ensures
        out == exit_code_spec(outcome),
{
    match outcome {
        Outcome::Updated => 0,
        Outcome::UpToDate => 0,
        Outcome::NotFound => 0,
        Outcome::AbortedSafely => 1,
        Outcome::RecoveryNeeded => 1,
    }
}

/// Says what the end of a search means for the installation.
pub fn game_finding(installed: GameVersion, latest: GameVersion) -> (out: Finding)
    ensures
        out == game_finding_spec(installed, latest),
{
    let mut latest = latest;
    if latest.empty() {
        Finding::NotFound
    } else if latest.equals(installed) {
        Finding::UpToDate
    } else {
        Finding::Update
    }
}

/// The events that lead to each phase of a run that is under way.
pub open spec fn path_to(phase: Phase) -> Seq<Event> {
    let found = Event::Resolved(Finding::Update);
    let ok = Event::Succeeded;
    match phase {
        Phase::Idle => seq![],
        Phase::Quarantined => seq![ok],
        Phase::VersionResolved => seq![ok, found],
        Phase::Wiped => seq![ok, found, ok],
        Phase::Downloaded => seq![ok, found, ok, ok],
        Phase::Extracted => seq![ok, found, ok, ok, ok],
        Phase::Restored => seq![ok, found, ok, ok, ok, ok],
        _ => seq![],
    }
}

/// Whether a run is where the events so far must have brought it.
pub open spec fn on_track(run: Run, events: Seq<Event>) -> bool {
    match run.phase {
        Phase::Done => true,
        Phase::Aborted => true,
        Phase::Quarantined => match run.finding {
            None => events == path_to(Phase::Quarantined),
            Some(finding) => finding != Finding::Update && events == seq![
                Event::Succeeded,
                Event::Resolved(finding),
            ],
        },
        phase => events == path_to(phase) && (past_safe_point(phase) ==> run.finding == Some(
            Finding::Update,
        )),
    }
}

/// A run that is under way has seen exactly the events that lead to its phase.
pub proof fn lemma_run_is_on_track(target: Target, events: Seq<Event>)
    ensures
        on_track(run_after(target, events), events),
        run_after(target, events).target == target,
    decreases events.len(),
{
    if events.len() == 0 {
        assert(events =~= path_to(Phase::Idle));
    } else {
        let earlier = events.drop_last();
        lemma_run_is_on_track(target, earlier);
        let before = run_after(target, earlier);
        assert(events =~= earlier.push(events.last()));
        let after = advance_spec(before, events.last());
        match after.phase {
            Phase::Done => {},
            Phase::Aborted => {},
            Phase::Quarantined => {
                match after.finding {
                    None => {
                        assert(events =~= path_to(Phase::Quarantined));
                    },
                    Some(finding) => {
                        assert(events =~= seq![Event::Succeeded, Event::Resolved(finding)]);
                    },
                }
            },
            phase => {
                assert(events =~= path_to(phase));
            },
        }
    }
}

/// A wipe is asked for only after the entries were put aside and a newer
/// release was found, and only then: the events before it are exactly a
/// successful quarantine and a finding of an update.
pub proof fn lemma_wipe_is_gated(target: Target, events: Seq<Event>)
    ensures
        pending_action_spec(run_after(target, events)) == Some(Action::Wipe) <==> events == seq![
            Event::Succeeded,
            Event::Resolved(Finding::Update),
        ],
{
    lemma_run_is_on_track(target, events);
    let gate = seq![Event::Succeeded, Event::Resolved(Finding::Update)];
    if events == gate {
        assert(gate.drop_last() =~= seq![Event::Succeeded]);
        assert(seq![Event::Succeeded].drop_last() =~= Seq::<Event>::empty());
        assert(run_after(target, Seq::<Event>::empty()) == initial_run(target));
        assert(run_after(target, seq![Event::Succeeded]).phase == Phase::Quarantined);
        assert(run_after(target, gate).phase == Phase::VersionResolved);
    }
}

/// Whether a step deletes or replaces what the target directory holds.
pub open spec fn is_destructive(action: Action) -> bool {
    action == Action::Wipe || action == Action::Download || action == Action::Extract
}

/// When the look for a newer release finds nothing to do, no destructive
/// step is ever asked for; the one step left is to bring the entries back,
/// and a run that ends ends with that finding and exit code zero.
pub proof fn lemma_no_update_never_wipes(target: Target, events: Seq<Event>, finding: Finding)
    requires
        finding != Finding::Update,
        events.len() >= 2,
        events[0] == Event::Succeeded,
        events[1] == Event::Resolved(finding),
    ensures
        forall|k: int|
            0 <= k <= events.len() ==> match pending_action_spec(
                #[trigger] run_after(target, events.take(k)),
            ) {
                Some(action) => !is_destructive(action),
                None => true,
            },
        pending_action_spec(run_after(target, events.take(2))) == Some(Action::Restore),
        run_after(target, events).phase == Phase::Done ==> outcome_spec(run_after(target, events))
            == Some(
            match finding {
                Finding::NotFound => Outcome::NotFound,
                _ => Outcome::UpToDate,
            },
        ) && exit_code_spec(outcome_spec(run_after(target, events))->0) == 0,
{
    let held = Run {
        target,
        phase: Phase::Quarantined,
        finding: Some(finding),
        failed_in: None,
        finalize_failed: false,
    };
    assert forall|k: int| 2 <= k <= events.len() implies ({
        let run = #[trigger] run_after(target, events.take(k));
        run == held || run == moved_to(held, Phase::Done) || run == aborted(held)
    }) by {
        lemma_held_run_stays_safe(target, events, finding, k);
    }
    assert forall|k: int| 0 <= k <= events.len() implies match pending_action_spec(
        #[trigger] run_after(target, events.take(k)),
    ) {
        Some(action) => !is_destructive(action),
        None => true,
    } by {
        if k < 2 {
            lemma_run_is_on_track(target, events.take(k));
            let run = run_after(target, events.take(k));
            if run.phase != Phase::Done && run.phase != Phase::Aborted && run.phase
                != Phase::Quarantined {
                assert(events.take(k).len() == path_to(run.phase).len());
            }
        }
    }
    lemma_held_run_stays_safe(target, events, finding, 2);
    assert(events.take(events.len() as int) =~= events);
}

/// Once a finding of "nothing to do" is in, the run is either waiting to
/// bring the entries back, or done, or aborted while waiting.
pub proof fn lemma_held_run_stays_safe(
    target: Target,
    events: Seq<Event>,
    finding: Finding,
    k: int,
)
    requires
        finding != Finding::Update,
        2 <= k <= events.len(),
        events[0] == Event::Succeeded,
        events[1] == Event::Resolved(finding),
    ensures
        ({
            let held = Run {
                target,
                phase: Phase::Quarantined,
                finding: Some(finding),
                failed_in: None,
                finalize_failed: false,
            };
            let run = run_after(target, events.take(k));
            &&& run == held || run == moved_to(held, Phase::Done) || run == aborted(held)
            &&& k == 2 ==> run == held
        }),
    decreases k,
{
    let upto = events.take(k);
    assert(upto.drop_last() =~= events.take(k - 1));
    if k == 2 {
        let one = events.take(1);
        assert(one.drop_last() =~= Seq::<Event>::empty());
        assert(run_after(target, one.drop_last()) == initial_run(target));
        assert(one.last() == Event::Succeeded);
        assert(run_after(target, one).phase == Phase::Quarantined);
        assert(upto.last() == Event::Resolved(finding));
    } else {
        lemma_held_run_stays_safe(target, events, finding, k - 1);
    }
}

/// Whether the entries that were put aside were brought back in the course
/// of the events: at some point the run waited for the restore, and the
/// restore succeeded.
pub open spec fn restored_during(target: Target, events: Seq<Event>) -> bool {
    exists|k: int|
        0 <= k < events.len() && pending_action_spec(#[trigger] run_after(target, events.take(k)))
            == Some(Action::Restore) && events[k] == Event::Succeeded
}

/// No run is done before the entries that were put aside are back: whatever
/// the events, a run that has reached its end without aborting has seen a
/// successful restore.
pub proof fn lemma_done_means_restored(target: Target, events: Seq<Event>)
    requires
        run_after(target, events).phase == Phase::Done,
    ensures
        restored_during(target, events),
    decreases events.len(),
{
    let n = events.len() as int;
    let earlier = events.drop_last();
    let before = run_after(target, earlier);
    assert(events.take(n - 1) =~= earlier);
    if before.phase == Phase::Done {
        lemma_done_means_restored(target, earlier);
        let k = choose|k: int|
            0 <= k < earlier.len() && pending_action_spec(
                #[trigger] run_after(target, earlier.take(k)),
            ) == Some(Action::Restore) && earlier[k] == Event::Succeeded;
        assert(events.take(k) =~= earlier.take(k));
    } else if before.phase == Phase::Restored {
        let two_back = earlier.drop_last();
        assert(events.take(n - 2) =~= two_back);
        assert(run_after(target, two_back).phase == Phase::Extracted);
        assert(events[n - 2] == Event::Succeeded);
    } else {
        assert(before.phase == Phase::Quarantined);
        assert(events[n - 1] == Event::Succeeded);
    }
}

/// A run that is under way can always be aborted: in every phase in which a
/// step is pending, some event takes the run to `Aborted`.
pub proof fn lemma_abort_is_always_possible(run: Run)
    requires
        pending_action_spec(run) is Some,
    ensures
        exists|event: Event| (#[trigger] advance_spec(run, event)).phase == Phase::Aborted,
{
    if run.phase == Phase::Restored {
        assert(advance_spec(run, Event::Resolved(Finding::NotFound)).phase == Phase::Aborted);
    } else {
        assert(advance_spec(run, Event::Failed).phase == Phase::Aborted);
    }
}

/// How far a run is from its end, at most: each event takes a run that is
/// under way to a later phase, settles its finding, or ends it.
pub open spec fn progress(run: Run) -> nat {
    match run.phase {
        Phase::Idle => 9,
        Phase::Quarantined => if run.finding is None {
            8
        } else {
            7
        },
        Phase::VersionResolved => 6,
        Phase::Wiped => 5,
        Phase::Downloaded => 4,
        Phase::Extracted => 3,
        Phase::Restored => 2,
        Phase::Done => 0,
        Phase::Aborted => 0,
    }
}

/// Every event brings a run that is under way nearer to its end.
pub proof fn lemma_every_event_makes_progress(run: Run, event: Event)
    requires
        pending_action_spec(run) is Some,
    ensures
        progress(advance_spec(run, event)) < progress(run),
{
}

} // verus!
