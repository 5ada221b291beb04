use crate::version::{next_major, next_minor, next_patch, zero_version, GameVersion};
use vstd::prelude::*;

verus! {

/// Where a search for the latest release stands: the installed version it
/// started from, the version to ask about next, and the last version that
/// was found to exist (all-zero while none was).
#[derive(Clone, Copy, Debug, PartialEq, Eq, Structural)]
pub struct ProbeState {
    pub baseline: GameVersion,
    pub current: GameVersion,
    pub best: GameVersion,
}

/// What one answer does to a search.
#[derive(Clone, Copy, Debug, PartialEq, Eq, Structural)]
pub enum ProbeStep {
    /// The search goes on from this state.
    Continue(ProbeState),
    /// The search is over; this is the last version found, all-zero for none.
    Done(GameVersion),
    /// The next candidate has a number beyond what a version can hold.
    OutOfRange,
}

/// Why a search gave no answer.
#[derive(Clone, Copy, Debug, PartialEq, Eq, Structural)]
pub enum ProbeError {
    /// A candidate would need a number beyond what a version can hold.
    OutOfRange,
}

/// The state in which a search from `baseline` begins.
pub open spec fn start_state(baseline: GameVersion) -> ProbeState {
    ProbeState { baseline, current: baseline, best: zero_version() }
}

/// The effect of one answer. A hit is remembered and the next patch is
/// tried. A miss ends the patch line: while the minor number is still the
/// baseline's, the next minor line is tried; once it has moved on, the next
/// major line is tried; once both have moved on, the search is over.
pub open spec fn step_spec(s: ProbeState, found: bool) -> ProbeStep {
    if found {
        if s.current.patch < u32::MAX {
            ProbeStep::Continue(
                ProbeState {
                    baseline: s.baseline,
                    current: next_patch(s.current),
                    best: s.current,
                },
            )
        } else {
            ProbeStep::OutOfRange
        }
    } else if s.current.minor != s.baseline.minor {
        if s.current.major != s.baseline.major {
            ProbeStep::Done(s.best)
        } else if s.current.major < u32::MAX {
            ProbeStep::Continue(
                ProbeState { baseline: s.baseline, current: next_major(s.current), best: s.best },
            )
        } else {
            ProbeStep::OutOfRange
        }
    } else {
        if s.current.minor < u32::MAX {
            ProbeStep::Continue(
                ProbeState { baseline: s.baseline, current: next_minor(s.current), best: s.best },
            )
        } else {
            ProbeStep::OutOfRange
        }
    }
}

/// The state reached from `start` after the given answers, as long as none of
/// them ended the search.
pub open spec fn state_after(start: ProbeState, answers: Seq<bool>) -> Option<ProbeState>
    decreases answers.len(),
{
    if answers.len() == 0 {
        Some(start)
    } else {
        match state_after(start, answers.drop_last()) {
            Some(s) => match step_spec(s, answers.last()) {
                ProbeStep::Continue(next) => Some(next),
                _ => None,
            },
            None => None,
        }
    }
}

/// The version that is asked about once the first `i` answers are in.
pub open spec fn probed_at(start: ProbeState, answers: Seq<bool>, i: int) -> Option<GameVersion> {
    match state_after(start, answers.take(i)) {
        Some(s) => Some(s.current),
        None => None,
    }
}

/// What a search from `start` comes to when the answers are exactly
/// `answers` and the last of them ends it.
pub open spec fn search_result(start: ProbeState, answers: Seq<bool>) -> Option<
    Result<GameVersion, ProbeError>,
> {
    if answers.len() == 0 {
        None
    } else {
        match state_after(start, answers.drop_last()) {
            Some(s) => match step_spec(s, answers.last()) {
                ProbeStep::Continue(_) => None,
                ProbeStep::Done(best) => Some(Ok(best)),
                ProbeStep::OutOfRange => Some(Err(ProbeError::OutOfRange)),
            },
            None => None,
        }
    }
}

/// Whether each answer is one that `probe` can give for the version asked
/// about at that point of the search.
pub open spec fn answers_come_from<F: Fn(GameVersion) -> bool>(
    probe: F,
    start: ProbeState,
    answers: Seq<bool>,
) -> bool {
    forall|i: int|
        0 <= i < answers.len() ==> match #[trigger] probed_at(start, answers, i) {
            Some(v) => call_ensures(probe, (v,), answers[i]),
            None => false,
        }
}

/// How many more lines a search can still open: three while it is on the
/// baseline's minor line, down to none once both numbers have moved on.
pub open spec fn lines_left(s: ProbeState) -> nat {
    if s.current.major == s.baseline.major {
        if s.current.minor == s.baseline.minor {
            3
        } else {
            2
        }
    } else {
        if s.current.minor == s.baseline.minor {
            1
        } else {
            0
        }
    }
}

impl ProbeState {
    /// Begins a search at the installed version.
    pub fn start(baseline: GameVersion) -> (out: ProbeState)
        ensures
            out == start_state(baseline),
    {
        ProbeState { baseline, current: baseline, best: GameVersion::zero() }
    }

    /// Takes in the answer for `self.current`.
    pub fn advance(&self, found: bool) -> (out: ProbeStep)
        ensures
            out == step_spec(*self, found),
    {
        let mut current = self.current;
        if found {
            if self.current.patch < u32::MAX {
                current.increment_patch();
                ProbeStep::Continue(
                    ProbeState { baseline: self.baseline, current, best: self.current },
                )
            } else {
                ProbeStep::OutOfRange
            }
        } else if self.current.minor != self.baseline.minor {
            if self.current.major != self.baseline.major {
                ProbeStep::Done(self.best)
            } else if self.current.major < u32::MAX {
                current.increment_major();
                ProbeStep::Continue(
                    ProbeState { baseline: self.baseline, current, best: self.best },
                )
            } else {
                ProbeStep::OutOfRange
            }
        } else {
            if self.current.minor < u32::MAX {
                current.increment_minor();
                ProbeStep::Continue(
                    ProbeState { baseline: self.baseline, current, best: self.best },
                )
            } else {
                ProbeStep::OutOfRange
            }
        }
    }
}

/// Searches for the latest release reachable from `baseline`, asking `probe`
/// about one version at a time. The result is what the answers given lead to:
/// the last version found (all-zero when none was), or an error when a
/// candidate would not fit a version.
pub fn find_latest_version<F: Fn(GameVersion) -> bool>(baseline: GameVersion, probe: F) -> (out:
    Result<GameVersion, ProbeError>)
    requires
        forall|v: GameVersion| call_requires(probe, (v,)),
    ensures
        exists|answers: Seq<bool>|
            answers_come_from(probe, start_state(baseline), answers) && #[trigger] search_result(
                start_state(baseline),
                answers,
            ) == Some(out),
{
    let ghost start = start_state(baseline);
    let ghost mut answers: Seq<bool> = Seq::empty();
    let mut state = ProbeState::start(baseline);
    loop
        invariant
            forall|v: GameVersion| call_requires(probe, (v,)),
            start == start_state(baseline),
            state_after(start, answers) == Some(state),
            answers_come_from(probe, start, answers),
        decreases lines_left(state), u32::MAX - state.current.patch,
    {
        let found = probe(state.current);
        let ghost earlier = answers;
        proof {
            answers = earlier.push(found);
            assert(answers.drop_last() =~= earlier);
            assert forall|i: int| 0 <= i < answers.len() implies match #[trigger] probed_at(
                start,
                answers,
                i,
            ) {
                Some(v) => call_ensures(probe, (v,), answers[i]),
                None => false,
            } by {
                if i < earlier.len() {
                    assert(answers.take(i) =~= earlier.take(i));
                    assert(probed_at(start, answers, i) == probed_at(start, earlier, i));
                } else {
                    assert(answers.take(i) =~= earlier);
                }
            }
        }
        match state.advance(found) {
            ProbeStep::Continue(next) => {
                state = next;
            },
            ProbeStep::Done(best) => {
                assert(search_result(start, answers) == Some(
                    Ok::<GameVersion, ProbeError>(best),
                ));
                return Ok(best);
            },
            ProbeStep::OutOfRange => {
                assert(search_result(start, answers) == Some(
                    Err::<GameVersion, ProbeError>(ProbeError::OutOfRange),
                ));
                return Err(ProbeError::OutOfRange);
            },
        }
    }
}

/// One step never goes back: the version asked about next comes strictly
/// after the one just asked about.
pub proof fn lemma_step_moves_forward(s: ProbeState, found: bool)
    ensures
        match step_spec(s, found) {
            ProbeStep::Continue(next) => s.current.precedes(next.current) && next.baseline
                == s.baseline,
            _ => true,
        },
{
}

/// Monotonic probing: in any search, a version asked about later comes
/// strictly after every version asked about earlier, in the order by major,
/// then minor, then patch.
pub proof fn lemma_probing_is_monotonic(start: ProbeState, answers: Seq<bool>, i: int, j: int)
    requires
        0 <= i < j <= answers.len(),
        probed_at(start, answers, j) is Some,
    ensures
        probed_at(start, answers, i) is Some,
        (probed_at(start, answers, i)->0).precedes(probed_at(start, answers, j)->0),
    decreases j - i,
{
    let upto = answers.take(j);
    assert(upto.drop_last() =~= answers.take(j - 1));
    let before = state_after(start, answers.take(j - 1))->0;
    lemma_step_moves_forward(before, upto.last());
    if i < j - 1 {
        lemma_probing_is_monotonic(start, answers, i, j - 1);
    }
}

/// Whether each answer is what `oracle` says of the version asked about at
/// that point of the search.
pub open spec fn answers_follow(
    oracle: spec_fn(GameVersion) -> bool,
    start: ProbeState,
    answers: Seq<bool>,
) -> bool {
    forall|i: int|
        0 <= i < answers.len() ==> match #[trigger] probed_at(start, answers, i) {
            Some(v) => answers[i] == oracle(v),
            None => false,
        }
}

/// Two runs of answers that follow one oracle agree as far as both go.
proof fn lemma_answers_agree(
    oracle: spec_fn(GameVersion) -> bool,
    start: ProbeState,
    a: Seq<bool>,
    b: Seq<bool>,
    n: int,
)
    requires
        answers_follow(oracle, start, a),
        answers_follow(oracle, start, b),
        0 <= n <= a.len(),
        n <= b.len(),
    ensures
        a.take(n) == b.take(n),
    decreases n,
{
    if n == 0 {
        assert(a.take(0) =~= b.take(0));
    } else {
        lemma_answers_agree(oracle, start, a, b, n - 1);
        assert(probed_at(start, a, n - 1) == probed_at(start, b, n - 1));
        assert(a[n - 1] == b[n - 1]);
        assert(a.take(n) =~= a.take(n - 1).push(a[n - 1]));
        assert(b.take(n) =~= b.take(n - 1).push(b[n - 1]));
    }
}

/// When the probe answers as an oracle does, the same for the same version,
/// the answers of a finished search and its result are determined: any two
/// finished searches from one start are the same search.
pub proof fn lemma_search_is_determined(
    oracle: spec_fn(GameVersion) -> bool,
    start: ProbeState,
    a: Seq<bool>,
    b: Seq<bool>,
)
    requires
        answers_follow(oracle, start, a),
        answers_follow(oracle, start, b),
        search_result(start, a) is Some,
        search_result(start, b) is Some,
    ensures
        a == b,
{
    let n = if a.len() <= b.len() {
        a.len() as int
    } else {
        b.len() as int
    };
    lemma_answers_agree(oracle, start, a, b, n);
    assert(a.take(a.len() as int) =~= a);
    assert(b.take(b.len() as int) =~= b);
    if a.len() < b.len() {
        assert(probed_at(start, b, n) is Some);
        assert(b.take(n) == a);
        assert(state_after(start, a) is None);
    } else if b.len() < a.len() {
        assert(probed_at(start, a, n) is Some);
        assert(a.take(n) == b);
        assert(state_after(start, b) is None);
    }
}

/// A probe whose every answer is the oracle's gives only answers that follow the oracle.
pub proof fn lemma_probe_follows_oracle<F: Fn(GameVersion) -> bool>(
    probe: F,
    oracle: spec_fn(GameVersion) -> bool,
    start: ProbeState,
    answers: Seq<bool>,
)
    requires
        forall|v: GameVersion, r: bool| call_ensures(probe, (v,), r) ==> r == oracle(v),
        answers_come_from(probe, start, answers),
    ensures
        answers_follow(oracle, start, answers),
{
    assert forall|i: int| 0 <= i < answers.len() implies match #[trigger] probed_at(
        start,
        answers,
        i,
    ) {
        Some(v) => answers[i] == oracle(v),
        None => false,
    } by {
        match probed_at(start, answers, i) {
            Some(v) => {
                assert(call_ensures(probe, (v,), answers[i]));
            },
            None => {},
        }
    }
}

/// The last version that was found to exist in the course of the answers:
/// the version asked about at the last answer that was a hit, or what the
/// search began with if there was no hit.
pub open spec fn last_hit(start: ProbeState, answers: Seq<bool>) -> GameVersion
    decreases answers.len(),
{
    if answers.len() == 0 {
        start.best
    } else if answers.last() {
        match probed_at(start, answers, answers.len() - 1) {
            Some(v) => v,
            None => start.best,
        }
    } else {
        last_hit(start, answers.drop_last())
    }
}

/// While a search goes on, the version it remembers is the last hit so far.
pub proof fn lemma_best_is_last_hit(start: ProbeState, answers: Seq<bool>)
    requires
        state_after(start, answers) is Some,
    ensures
        (state_after(start, answers)->0).best == last_hit(start, answers),
        (state_after(start, answers)->0).baseline == start.baseline,
    decreases answers.len(),
{
    if answers.len() > 0 {
        let earlier = answers.drop_last();
        lemma_best_is_last_hit(start, earlier);
        assert(answers.take(answers.len() - 1) =~= earlier);
    }
}

/// A search that ends with a version ends on a miss, and the version is the
/// last hit: the version at which the probe last answered yes, or what the
/// search began with (all-zero, from a start state) if it never did.
pub proof fn lemma_result_is_last_hit(start: ProbeState, answers: Seq<bool>)
    requires
        search_result(start, answers) is Some,
    ensures
        search_result(start, answers)->0 matches Ok(best) ==> !answers.last() && best == last_hit(
            start,
            answers,
        ),
{
    lemma_best_is_last_hit(start, answers.drop_last());
}

/// A last hit other than what the search began with was a hit: at some
/// point the search asked about exactly that version and the answer was yes.
pub proof fn lemma_last_hit_was_a_hit(start: ProbeState, answers: Seq<bool>)
    requires
        last_hit(start, answers) != start.best,
    ensures
        exists|i: int|
            0 <= i < answers.len() && answers[i] && #[trigger] probed_at(start, answers, i) == Some(
                last_hit(start, answers),
            ),
    decreases answers.len(),
{
    let n = answers.len() as int;
    if answers.last() {
        assert(probed_at(start, answers, n - 1) == Some(last_hit(start, answers)));
    } else {
        let earlier = answers.drop_last();
        lemma_last_hit_was_a_hit(start, earlier);
        let i = choose|i: int|
            0 <= i < earlier.len() && earlier[i] && #[trigger] probed_at(start, earlier, i) == Some(
                last_hit(start, earlier),
            );
        assert(answers.take(i) =~= earlier.take(i));
        assert(probed_at(start, answers, i) == Some(last_hit(start, answers)));
    }
}

} // verus!
