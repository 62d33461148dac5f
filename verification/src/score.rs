//! Scores of submitted runs, the outcome of a test run, the plagiarism check
//! and the "first score per player" leaderboard filter.
use vstd::prelude::*;

verus! {

/// One recorded run: who ran which program, in which language, how fast,
/// and the hash of the program's binary.  The running time is kept in whole
/// nanoseconds.
#[derive(Debug, Clone)]
pub struct Score {
    pub name: String,
    pub command: String,
    pub time_ns: u64,
    pub hash: String,
    pub language: String,
}

/// The mathematical content of a score.
pub struct ScoreView {
    pub name: Seq<char>,
    pub command: Seq<char>,
    pub time_ns: u64,
    pub hash: Seq<char>,
    pub language: Seq<char>,
}

impl View for Score {
    type V = ScoreView;

    open spec fn view(&self) -> ScoreView {
        ScoreView {
            name: self.name@,
            command: self.command@,
            time_ns: self.time_ns,
            hash: self.hash@,
            language: self.language@,
        }
    }
}

impl Score {
    /// Builds a score from its parts.
    pub fn new(name: &str, command: &str, time_ns: u64, hash: String, language: &str) -> (r: Score)
        ensures
            r.name@ == name@,
            r.command@ == command@,
            r.time_ns == time_ns,
            r.hash@ == hash@,
            r.language@ == language@,
    {
        Score {
            name: String::from_str(name),
            command: String::from_str(command),
            time_ns,
            hash,
            language: String::from_str(language),
        }
    }

    /// A field-by-field copy.
    pub fn duplicate(&self) -> (r: Score)
        ensures
            r@ == self@,
    {
        Score {
            name: self.name.clone(),
            command: self.command.clone(),
            time_ns: self.time_ns,
            hash: self.hash.clone(),
            language: self.language.clone(),
        }
    }
}

/// The outcome of running a submission against a challenge.
#[derive(Debug, Clone)]
pub enum TestResult {
    Success(Score),
    Fail(String),
    /// The submission (first) has the same binary as an earlier run of
    /// another player (second).
    Stolen(Score, Score),
}

/// The mathematical content of a test result.
pub enum TestResultView {
    Success(ScoreView),
    Fail(Seq<char>),
    Stolen(ScoreView, ScoreView),
}

impl View for TestResult {
    type V = TestResultView;

    open spec fn view(&self) -> TestResultView {
        match self {
            TestResult::Success(s) => TestResultView::Success(s@),
            TestResult::Fail(m) => TestResultView::Fail(m@),
            TestResult::Stolen(a, b) => TestResultView::Stolen(a@, b@),
        }
    }
}

/// `earlier` is a copy of `new`: same binary hash, different player.
pub open spec fn is_copy_of(earlier: ScoreView, new: ScoreView) -> bool {
    earlier.hash == new.hash && earlier.name != new.name
}

/// Index of the first earlier score that `new` copies, if any.
pub open spec fn first_copy(previous: Seq<ScoreView>, new: ScoreView, from: int) -> Option<int>
    decreases previous.len() - from,
{
    if from < 0 || from >= previous.len() {
        None
    } else if is_copy_of(previous[from], new) {
        Some(from)
    } else {
        first_copy(previous, new, from + 1)
    }
}

/// The views of a list of scores.
pub open spec fn score_views(s: Seq<Score>) -> Seq<ScoreView> {
    s.map_values(|x: Score| x@)
}

/// What the plagiarism check makes of a result: a successful run whose binary
/// hash matches an earlier run by another player becomes `Stolen`, paired with
/// the first such earlier run; every other result is kept.
pub open spec fn plagiarism_outcome(result: TestResultView, previous: Seq<ScoreView>) -> TestResultView {
    match result {
        TestResultView::Success(new) => match first_copy(previous, new, 0) {
            Some(i) => TestResultView::Stolen(new, previous[i]),
            None => result,
        },
        _ => result,
    }
}

proof fn lemma_first_copy_found(previous: Seq<ScoreView>, new: ScoreView, from: int)
    ensures
        first_copy(previous, new, from) matches Some(i) ==> from <= i < previous.len()
            && is_copy_of(previous[i], new)
            && (forall|j: int| from <= j < i ==> !is_copy_of(#[trigger] previous[j], new)),
        first_copy(previous, new, from) is None ==> (forall|j: int|
            0 <= from <= j < previous.len() ==> !is_copy_of(#[trigger] previous[j], new)),
    decreases previous.len() - from,
{
    if from < 0 || from >= previous.len() {
    } else if is_copy_of(previous[from], new) {
    } else {
        lemma_first_copy_found(previous, new, from + 1);
    }
}

/// Checks a test result against the earlier runs: a successful run whose
/// binary was already submitted by somebody else is reported as stolen.
pub fn check_for_plagiarism(result: TestResult, previous: &Vec<Score>) -> (r: TestResult)
    ensures
        r@ == plagiarism_outcome(result@, score_views(previous@)),
{
    let ghost views = score_views(previous@);
    if let TestResult::Success(new_score) = &result {
        let mut i: usize = 0;
        while i < previous.len()
            invariant
                0 <= i <= previous.len(),
                views == score_views(previous@),
                result@ == TestResultView::Success(new_score@),
                first_copy(views, new_score@, 0) == first_copy(views, new_score@, i as int),
            decreases previous.len() - i,
        {
            let score = &previous[i];
            assert(views[i as int] == score@);
            if score.hash == new_score.hash && !(score.name == new_score.name) {
                assert(first_copy(views, new_score@, i as int) == Some(i as int));
                return TestResult::Stolen(new_score.duplicate(), score.duplicate());
            }
            i = i + 1;
        }
    }
    result
}

/// Law: a successful run is reported as stolen exactly when an earlier score
/// has the same binary hash and another player's name, whatever commands
/// either run was started with; the thief is the new run and the victim the
/// first such earlier score.  Otherwise the success is kept as it is.
pub proof fn law_stolen_by_hash_and_name(new: ScoreView, previous: Seq<ScoreView>)
    ensures
        (plagiarism_outcome(TestResultView::Success(new), previous) is Stolen)
            <==> exists|i: int| 0 <= i < previous.len() && #[trigger] previous[i].hash == new.hash
                && previous[i].name != new.name,
        plagiarism_outcome(TestResultView::Success(new), previous) matches TestResultView::Stolen(thief, victim)
            ==> thief == new && exists|i: int| 0 <= i < previous.len() && #[trigger] previous[i] == victim
                && victim.hash == new.hash && victim.name != new.name
                && forall|j: int| 0 <= j < i ==> !(#[trigger] previous[j].hash == new.hash && previous[j].name != new.name),
        !(plagiarism_outcome(TestResultView::Success(new), previous) is Stolen)
            ==> plagiarism_outcome(TestResultView::Success(new), previous) == TestResultView::Success(new),
{
    lemma_first_copy_found(previous, new, 0);
    match first_copy(previous, new, 0) {
        Some(i) => {
            assert(is_copy_of(previous[i], new));
            assert forall|j: int| 0 <= j < i implies !(#[trigger] previous[j].hash == new.hash && previous[j].name != new.name) by {
                assert(!is_copy_of(previous[j], new));
            }
        },
        None => {
            assert forall|i: int| 0 <= i < previous.len() implies !(#[trigger] previous[i].hash == new.hash && previous[i].name != new.name) by {
                assert(!is_copy_of(previous[i], new));
            }
        },
    }
}

/// Law: the plagiarism check only ever turns a success into `Stolen`, and it
/// does so exactly when an earlier run by another player has the same binary
/// hash; the thief is the new run and the victim is the first such earlier run.
pub proof fn law_plagiarism_exact(result: TestResultView, previous: Seq<ScoreView>)
    ensures
        match result {
            TestResultView::Success(new) => {
                &&& (exists|i: int| 0 <= i < previous.len() && is_copy_of(previous[i], new)) ==> (
                    plagiarism_outcome(result, previous) matches TestResultView::Stolen(thief, victim)
                    && thief == new
                    && exists|i: int| 0 <= i < previous.len() && previous[i] == victim
                        && is_copy_of(victim, new)
                        && forall|j: int| 0 <= j < i ==> !is_copy_of(#[trigger] previous[j], new))
                &&& !(exists|i: int| 0 <= i < previous.len() && is_copy_of(previous[i], new))
                    ==> plagiarism_outcome(result, previous) == result
            },
            _ => plagiarism_outcome(result, previous) == result,
        },
{
    if let TestResultView::Success(new) = result {
        lemma_first_copy_found(previous, new, 0);
    }
}

/// Whether the per-player filter has stopped once `kept` scores are kept: the
/// limit is checked after each kept score, so the first score is always kept.
pub open spec fn limit_reached(kept: nat, limit: nat) -> bool {
    kept >= limit && kept > 0
}

/// The first score of each player, in order, cut off once `limit` scores are
/// kept (one score at least): the leaderboard filter that keeps one entry per
/// player.
pub open spec fn unique_players(scores: Seq<ScoreView>, limit: nat) -> Seq<ScoreView>
    decreases scores.len(),
{
    if scores.len() == 0 {
        seq![]
    } else {
        let before = unique_players(scores.drop_last(), limit);
        if limit_reached(before.len(), limit) || names_of(before).contains(scores.last().name) {
            before
        } else {
            before.push(scores.last())
        }
    }
}

/// The player names of a list of scores.
pub open spec fn names_of(s: Seq<ScoreView>) -> Seq<Seq<char>> {
    s.map_values(|x: ScoreView| x.name)
}

/// Law: the per-player filter keeps a subsequence of the input, never keeps
/// two scores of the same player, keeps at most `limit` scores (one when the
/// limit is zero), and keeps a player's score only if it is that player's
/// first one in the input.
pub proof fn law_unique_players(scores: Seq<ScoreView>, limit: nat)
    ensures
        unique_players(scores, limit).len() <= if limit == 0 { 1 } else { limit },
        unique_players(scores, limit).len() <= scores.len(),
        forall|i: int, j: int| 0 <= i < j < unique_players(scores, limit).len()
            ==> unique_players(scores, limit)[i].name != unique_players(scores, limit)[j].name,
        forall|i: int| 0 <= i < unique_players(scores, limit).len()
            ==> exists|k: int| 0 <= k < scores.len() && scores[k] == #[trigger] unique_players(scores, limit)[i]
                && forall|m: int| 0 <= m < k ==> scores[m].name != scores[k].name,
    decreases scores.len(),
{
    if scores.len() > 0 {
        let rest = scores.drop_last();
        law_unique_players(rest, limit);
        let before = unique_players(rest, limit);
        let u = unique_players(scores, limit);
        assert forall|i: int| 0 <= i < u.len() implies exists|k: int| 0 <= k < scores.len()
            && scores[k] == #[trigger] u[i] && forall|m: int| 0 <= m < k ==> scores[m].name != scores[k].name by {
            if i < before.len() {
                let k = choose|k: int| 0 <= k < rest.len() && rest[k] == before[i]
                    && forall|m: int| 0 <= m < k ==> rest[m].name != rest[k].name;
                assert(scores[k] == rest[k]);
                assert forall|m: int| 0 <= m < k implies scores[m].name != scores[k].name by {
                    assert(scores[m] == rest[m]);
                }
            } else {
                let k = scores.len() - 1;
                assert(u[i] == scores[k]);
                assert forall|m: int| 0 <= m < k implies scores[m].name != scores[k].name by {
                    if scores[m].name == scores[k].name {
                        assert(scores[m] == rest[m]);
                        lemma_first_of_name_kept(rest, limit, m);
                    }
                }
            }
        }
        if !(limit_reached(before.len(), limit) || names_of(before).contains(scores.last().name)) {
            assert forall|i: int| 0 <= i < before.len() implies before[i].name != scores.last().name by {
                assert(names_of(before)[i] == before[i].name);
            }
        }
    }
}

/// When the limit was not reached, every player occurring in the input is
/// represented in the filtered list.
proof fn lemma_first_of_name_kept(scores: Seq<ScoreView>, limit: nat, m: int)
    requires
        0 <= m < scores.len(),
        !limit_reached(unique_players(scores, limit).len(), limit),
    ensures
        names_of(unique_players(scores, limit)).contains(scores[m].name),
    decreases scores.len(),
{
    let rest = scores.drop_last();
    let before = unique_players(rest, limit);
    lemma_unique_players_grows(rest, limit);
    if m < scores.len() - 1 {
        assert(scores[m] == rest[m]);
        lemma_first_of_name_kept(rest, limit, m);
        let k = choose|k: int| 0 <= k < names_of(before).len() && names_of(before)[k] == rest[m].name;
        let u = unique_players(scores, limit);
        assert(u.subrange(0, before.len() as int) =~= before);
        assert(names_of(u)[k] == u[k].name);
        assert(u[k] == before[k]);
    } else {
        let u = unique_players(scores, limit);
        if names_of(before).contains(scores.last().name) {
            let k = choose|k: int| 0 <= k < names_of(before).len() && names_of(before)[k] == scores.last().name;
            assert(names_of(u)[k] == u[k].name);
        } else {
            assert(names_of(u)[u.len() - 1] == u[u.len() - 1].name);
        }
    }
}

proof fn lemma_unique_players_grows(scores: Seq<ScoreView>, limit: nat)
    ensures
        scores.len() > 0 ==> unique_players(scores.drop_last(), limit).len() <= unique_players(scores, limit).len(),
        scores.len() > 0 ==> unique_players(scores, limit).subrange(0, unique_players(scores.drop_last(), limit).len() as int)
            == unique_players(scores.drop_last(), limit),
{
    if scores.len() > 0 {
        let before = unique_players(scores.drop_last(), limit);
        let u = unique_players(scores, limit);
        assert(u.subrange(0, before.len() as int) =~= before);
    }
}

} // verus!
