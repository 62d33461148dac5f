//! Challenge schedule settings: when each challenge opens and closes, which
//! language earns the spot prize, and which challenges may be run.
use vstd::prelude::*;
use crate::score::{Score, ScoreView, score_views};
use crate::text::str_equal;

verus! {

/// A point in time: whole seconds since the Unix epoch and the nanoseconds
/// past that second (a leap second may carry more than a second's worth).
#[derive(Debug, Clone, Copy, PartialEq, Eq, Structural)]
pub struct Instant {
    pub secs: i64,
    pub nanos: u32,
}

/// Strict chronological order of instants.
pub open spec fn before(a: Instant, b: Instant) -> bool {
    a.secs < b.secs || (a.secs == b.secs && a.nanos < b.nanos)
}

fn is_before(a: Instant, b: Instant) -> (r: bool)
    ensures
        r == before(a, b),
{
    a.secs < b.secs || (a.secs == b.secs && a.nanos < b.nanos)
}

/// What parsing a text as an RFC 3339 date-time with offset gives: the
/// instant it denotes, or the parser's error message.
pub uninterp spec fn parsed_instant(text: Seq<char>) -> Result<(i64, u32), Seq<char>>;

/// Parses a date-time with a UTC offset, such as `2024-01-01T08:00:00+02:00`.
///
/// Trusted: `str::parse::<chrono::DateTime<chrono::FixedOffset>>` (chrono's
/// relaxed RFC 3339 parser) gives a result that depends on the text alone,
/// named `parsed_instant`; on success the instant is read back with
/// `timestamp` and `timestamp_subsec_nanos`, on failure the error's message is
/// kept.
#[verifier::external_body]
fn parse_instant(text: &str) -> (r: Result<Instant, String>)
    ensures
        match r {
            Ok(i) => parsed_instant(text@) == Ok::<(i64, u32), Seq<char>>((i.secs, i.nanos)),
            Err(m) => parsed_instant(text@) == Err::<(i64, u32), Seq<char>>(m@),
        },
{
    match text.parse::<chrono::DateTime<chrono::FixedOffset>>() {
        Ok(dt) => Ok(Instant { secs: dt.timestamp(), nanos: dt.timestamp_subsec_nanos() }),
        Err(e) => Err(e.to_string()),
    }
}

/// The current time.
///
/// Trusted: `chrono::Utc::now` reads the system clock; nothing is promised of
/// the instant but that its sub-second part stays below two seconds' worth
/// of nanoseconds (chrono represents a leap second that way).
#[verifier::external_body]
fn current_instant() -> (r: Instant)
    ensures
        r.nanos < 2_000_000_000,
{
    let now = chrono::Utc::now();
    Instant { secs: now.timestamp(), nanos: now.timestamp_subsec_nanos() }
}

/// Whether a challenge is open for submissions.
#[derive(Debug, Clone, Copy, PartialEq, Eq, Structural)]
pub enum Status {
    Active,
    Past,
    Closed,
}

impl Default for Status {
    fn default() -> (r: Status)
        ensures
            r == Status::Closed,
    {
        Status::Closed
    }
}

/// The status of a challenge running from `start` to `end`, seen at `now`:
/// closed before the start, past after the end, active in between (both ends
/// included).
pub open spec fn status_at(start: Instant, end: Instant, now: Instant) -> Status {
    if before(now, start) {
        Status::Closed
    } else if before(end, now) {
        Status::Past
    } else {
        Status::Active
    }
}

/// Law: instants are ordered chronologically: an earlier second comes first
/// whatever the nanoseconds, and within one second the nanoseconds decide.
/// The order is strict, total and transitive.
pub proof fn law_instants_in_time_order(a: Instant, b: Instant, c: Instant)
    ensures
        a.secs < b.secs ==> before(a, b) && !before(b, a),
        a.secs == b.secs ==> (before(a, b) <==> a.nanos < b.nanos),
        !before(a, a),
        a != b ==> (before(a, b) || before(b, a)),
        before(a, b) && before(b, c) ==> before(a, c),
{
}

/// Law: a challenge is closed before its start, past after its end and active
/// in between, judged by the second when the seconds differ: in particular it
/// is active whenever the current second lies strictly between the start and
/// the end, whatever the nanoseconds.
pub proof fn law_status_follows_schedule(start: Instant, end: Instant, now: Instant)
    ensures
        start.secs < now.secs && now.secs < end.secs ==> status_at(start, end, now) == Status::Active,
        now.secs < start.secs ==> status_at(start, end, now) == Status::Closed,
        start.secs <= now.secs && end.secs < now.secs && !before(now, start) ==> status_at(start, end, now) == Status::Past,
        !before(now, start) && !before(end, now) ==> status_at(start, end, now) == Status::Active,
        start == now || end == now ==> (status_at(start, end, now) == Status::Active || before(end, start)),
{
}

/// Errors of the settings.
#[derive(Debug, Clone, PartialEq, Eq)]
pub enum SettingsError {
    /// A start or end date could not be parsed; the parser's message.
    InvalidTime(String),
    /// No challenge with the requested id is configured.
    ChallengeNotFound,
}

impl SettingsError {
    /// The error message: the parser's message for a date, "Challenge not
    /// found" for an unknown challenge.
    pub fn message(&self) -> (r: String)
        ensures
            match self {
                SettingsError::InvalidTime(m) => r@ == m@,
                SettingsError::ChallengeNotFound => r@ == "Challenge not found"@,
            },
    {
        match self {
            SettingsError::InvalidTime(m) => m.clone(),
            SettingsError::ChallengeNotFound => String::from_str("Challenge not found"),
        }
    }
}

/// The schedule of one challenge, as configured, with its parsed dates.
#[derive(Debug, Clone)]
pub struct ChallengeConfig {
    pub id: String,
    pub start: String,
    pub end: String,
    pub language_prize: String,
    pub start_dt: Instant,
    pub end_dt: Instant,
    pub status: Status,
}

/// The earlier scores do not hold one in the prize language.
pub open spec fn prize_unclaimed(prize_language: Seq<char>, previous: Seq<ScoreView>) -> bool {
    forall|i: int| 0 <= i < previous.len() ==> #[trigger] previous[i].language != prize_language
}

/// A submission in `language` wins the spot prize: it is in the prize
/// language and no earlier score is.
pub open spec fn wins_prize(prize_language: Seq<char>, language: Seq<char>, previous: Seq<ScoreView>) -> bool {
    language == prize_language && prize_unclaimed(prize_language, previous)
}

impl ChallengeConfig {
    /// A configuration as read from the settings file, with the dates not yet
    /// parsed (both at the Unix epoch) and the status `Closed`.
    pub fn new(id: String, start: String, end: String, language_prize: String) -> (r: ChallengeConfig)
        ensures
            r.id@ == id@,
            r.start@ == start@,
            r.end@ == end@,
            r.language_prize@ == language_prize@,
            r.start_dt == (Instant { secs: 0, nanos: 0 }),
            r.end_dt == (Instant { secs: 0, nanos: 0 }),
            r.status == Status::Closed,
    {
        ChallengeConfig {
            id,
            start,
            end,
            language_prize,
            start_dt: Instant { secs: 0, nanos: 0 },
            end_dt: Instant { secs: 0, nanos: 0 },
            status: Status::Closed,
        }
    }

    /// A field-by-field copy.
    pub fn duplicate(&self) -> (r: ChallengeConfig)
        ensures
            r == *self,
    {
        ChallengeConfig {
            id: self.id.clone(),
            start: self.start.clone(),
            end: self.end.clone(),
            language_prize: self.language_prize.clone(),
            start_dt: self.start_dt,
            end_dt: self.end_dt,
            status: self.status,
        }
    }

    /// The status of this challenge at the instant `now`.
    pub fn status_at(&self, now: Instant) -> (r: Status)
        ensures
            r == status_at(self.start_dt, self.end_dt, now),
    {
        if is_before(now, self.start_dt) {
            return Status::Closed;
        }
        if is_before(self.end_dt, now) {
            return Status::Past;
        }
        Status::Active
    }

    /// The status of this challenge now.
    pub fn get_status(&self) -> (r: Status)
        ensures
            exists|now: Instant| r == status_at(self.start_dt, self.end_dt, now),
    {
        let now = current_instant();
        self.status_at(now)
    }

    /// Parses the start and end dates and recomputes the status at `now`.
    /// The start date is parsed first; if it fails nothing changes, and if
    /// only the end date fails the new start date is kept.
    pub fn update_at(&mut self, now: Instant) -> (r: Result<(), SettingsError>)
        ensures
            final(self).id == old(self).id,
            final(self).start == old(self).start,
            final(self).end == old(self).end,
            final(self).language_prize == old(self).language_prize,
            match parsed_instant(old(self).start@) {
                Err(m) => r matches Err(SettingsError::InvalidTime(e)) && e@ == m && *final(self) == *old(self),
                Ok(s) => final(self).start_dt == (Instant { secs: s.0, nanos: s.1 }) && match parsed_instant(old(self).end@) {
                    Err(m) => r matches Err(SettingsError::InvalidTime(e)) && e@ == m
                        && final(self).end_dt == old(self).end_dt && final(self).status == old(self).status,
                    Ok(e) => r is Ok && final(self).end_dt == (Instant { secs: e.0, nanos: e.1 })
                        && final(self).status == status_at(final(self).start_dt, final(self).end_dt, now),
                },
            },
    {
        match parse_instant(self.start.as_str()) {
            Ok(s) => {
                self.start_dt = s;
            },
            Err(m) => {
                return Err(SettingsError::InvalidTime(m));
            },
        }
        match parse_instant(self.end.as_str()) {
            Ok(e) => {
                self.end_dt = e;
            },
            Err(m) => {
                return Err(SettingsError::InvalidTime(m));
            },
        }
        self.status = self.status_at(now);
        Ok(())
    }

    /// Parses the start and end dates and recomputes the status now.
    pub fn update(&mut self) -> (r: Result<(), SettingsError>)
        ensures
            updated_at_some_time(*old(self), *final(self), r),
    {
        let now = current_instant();
        let ghost pre = *self;
        let r = self.update_at(now);
        assert(update_outcome(pre, *self, r, now));
        r
    }

    /// Whether a submission in `language` wins the spot prize, given the
    /// earlier scores of this challenge.
    pub fn gets_a_prize(&self, language: &str, previous: &Vec<Score>) -> (r: Result<bool, SettingsError>)
        ensures
            r == Ok::<bool, SettingsError>(wins_prize(self.language_prize@, language@, score_views(previous@))),
    {
        if str_equal(self.language_prize.as_str(), language) {
            return self.is_prize_not_claimed(previous);
        }
        Ok(false)
    }

    fn is_prize_not_claimed(&self, past: &Vec<Score>) -> (r: Result<bool, SettingsError>)
        ensures
            r == Ok::<bool, SettingsError>(prize_unclaimed(self.language_prize@, score_views(past@))),
    {
        let ghost views = score_views(past@);
        let mut i: usize = 0;
        while i < past.len()
            invariant
                0 <= i <= past.len(),
                views == score_views(past@),
                forall|j: int| 0 <= j < i ==> #[trigger] views[j].language != self.language_prize@,
            decreases past.len() - i,
        {
            assert(views[i as int] == past@[i as int]@);
            if past[i].language == self.language_prize {
                assert(views[i as int].language == self.language_prize@);
                return Ok(false);
            }
            i = i + 1;
        }
        Ok(true)
    }
}

/// What `update_at` guarantees, as a relation between the configuration
/// before and after, the result and the instant used.
pub open spec fn update_outcome(
    pre: ChallengeConfig,
    post: ChallengeConfig,
    r: Result<(), SettingsError>,
    now: Instant,
) -> bool {
    &&& post.id == pre.id
    &&& post.start == pre.start
    &&& post.end == pre.end
    &&& post.language_prize == pre.language_prize
    &&& match parsed_instant(pre.start@) {
        Err(m) => r matches Err(SettingsError::InvalidTime(e)) && e@ == m && post == pre,
        Ok(s) => post.start_dt == (Instant { secs: s.0, nanos: s.1 }) && match parsed_instant(pre.end@) {
            Err(m) => r matches Err(SettingsError::InvalidTime(e)) && e@ == m
                && post.end_dt == pre.end_dt && post.status == pre.status,
            Ok(e) => r is Ok && post.end_dt == (Instant { secs: e.0, nanos: e.1 })
                && post.status == status_at(post.start_dt, post.end_dt, now),
        },
    }
}

/// `post` is `pre` updated at some instant, with result `r`.
pub open spec fn updated_at_some_time(pre: ChallengeConfig, post: ChallengeConfig, r: Result<(), SettingsError>) -> bool {
    exists|now: Instant| update_outcome(pre, post, r, now)
}

/// Law: the spot prize goes to the first submission in the prize language
/// only; once a score in that language is on record, no later submission wins.
pub proof fn law_prize_only_once(
    prize_language: Seq<char>,
    language: Seq<char>,
    previous: Seq<ScoreView>,
    winner: ScoreView,
)
    requires
        wins_prize(prize_language, winner.language, previous),
    ensures
        !wins_prize(prize_language, language, previous.push(winner)),
{
    assert(previous.push(winner)[previous.len() as int] == winner);
}

/// Law: the spot prize goes to a submission in the prize language only while
/// no earlier score, at any position of the list, is in that language; one
/// earlier score in it, wherever it stands, rules the prize out.
pub proof fn law_prize_needs_no_earlier_claim(
    prize_language: Seq<char>,
    language: Seq<char>,
    previous: Seq<ScoreView>,
    k: int,
)
    ensures
        0 <= k < previous.len() && previous[k].language == prize_language
            ==> !wins_prize(prize_language, language, previous),
        language == prize_language && (forall|j: int| 0 <= j < previous.len() ==> #[trigger] previous[j].language != prize_language)
            ==> wins_prize(prize_language, language, previous),
        language != prize_language ==> !wins_prize(prize_language, language, previous),
{
}

/// All configured challenges.
#[derive(Debug, Clone)]
pub struct Settings {
    pub challenges: Vec<ChallengeConfig>,
}

/// The views of the configured ids.
pub open spec fn config_ids(c: Seq<ChallengeConfig>) -> Seq<Seq<char>> {
    c.map_values(|x: ChallengeConfig| x.id@)
}

/// Index of the first configuration with the given id.
pub open spec fn first_config(c: Seq<ChallengeConfig>, id: Seq<char>, from: int) -> Option<int>
    decreases c.len() - from,
{
    if from < 0 || from >= c.len() {
        None
    } else if c[from].id@ == id {
        Some(from)
    } else {
        first_config(c, id, from + 1)
    }
}

/// Whether the challenge with the given id may be run: it is configured and
/// its status is `Active`.
pub open spec fn allowed(settings: Settings, id: Seq<char>) -> bool {
    match first_config(settings.challenges@, id, 0) {
        Some(i) => settings.challenges@[i].status == Status::Active,
        None => false,
    }
}

impl Settings {
    /// Parses the dates of every challenge, in order, and computes their
    /// status; stops at the first date that does not parse.
    pub fn update_challenges(&mut self) -> (r: Result<(), SettingsError>)
        ensures
            final(self).challenges@.len() == old(self).challenges@.len(),
            r is Ok ==> forall|i: int| 0 <= i < final(self).challenges@.len()
                ==> updated_at_some_time(old(self).challenges@[i], #[trigger] final(self).challenges@[i], r),
            r is Err ==> exists|k: int| 0 <= k < final(self).challenges@.len()
                && updated_at_some_time(old(self).challenges@[k], #[trigger] final(self).challenges@[k], r)
                && (forall|j: int| 0 <= j < k ==> updated_at_some_time(
                    old(self).challenges@[j], #[trigger] final(self).challenges@[j], Ok(())))
                && (forall|j: int| k < j < final(self).challenges@.len()
                    ==> #[trigger] final(self).challenges@[j] == old(self).challenges@[j]),
    {
        let n = self.challenges.len();
        let mut i: usize = 0;
        let ghost mut nows: Seq<Instant> = Seq::empty();
        while i < n
            invariant
                0 <= i <= n,
                n == old(self).challenges@.len(),
                self.challenges@.len() == n,
                nows.len() == i,
                forall|j: int| 0 <= j < i ==>
                    update_outcome(#[trigger] old(self).challenges@[j], self.challenges@[j], Ok(()), nows[j]),
                forall|j: int| i <= j < n ==> self.challenges@[j] == old(self).challenges@[j],
            decreases n - i,
        {
            let mut c = self.challenges[i].duplicate();
            let ghost pre = c;
            let r = c.update();
            let ghost w = choose|now: Instant| update_outcome(pre, c, r, now);
            let ghost prev = self.challenges@;
            self.challenges.set(i, c);
            assert(update_outcome(old(self).challenges@[i as int], self.challenges@[i as int], r, w));
            assert(updated_at_some_time(old(self).challenges@[i as int], self.challenges@[i as int], r));
            match r {
                Err(e) => {
                    assert forall|j: int| 0 <= j < i implies updated_at_some_time(
                        old(self).challenges@[j], #[trigger] self.challenges@[j], Ok(())) by {
                        assert(self.challenges@[j] == prev[j]);
                        assert(update_outcome(old(self).challenges@[j], self.challenges@[j], Ok(()), nows[j]));
                    }
                    assert forall|j: int| i < j < n implies
                        #[trigger] self.challenges@[j] == old(self).challenges@[j] by {
                        assert(self.challenges@[j] == prev[j]);
                    }
                    return Err(e);
                },
                Ok(()) => {},
            }
            proof {
                nows = nows.push(w);
                assert forall|j: int| 0 <= j < i + 1 implies
                    update_outcome(#[trigger] old(self).challenges@[j], self.challenges@[j], Ok(()), nows[j]) by {
                    if j < i {
                        assert(self.challenges@[j] == prev[j]);
                    }
                }
            }
            i = i + 1;
        }
        assert forall|j: int| 0 <= j < self.challenges@.len() implies
            updated_at_some_time(old(self).challenges@[j], #[trigger] self.challenges@[j], Ok(())) by {
            assert(update_outcome(old(self).challenges@[j], self.challenges@[j], Ok(()), nows[j]));
        }
        Ok(())
    }

    /// The configuration of the challenge with the given id (the first one
    /// if several share it).
    pub fn get_challenge(&self, id: &str) -> (r: Result<&ChallengeConfig, SettingsError>)
        ensures
            match first_config(self.challenges@, id@, 0) {
                Some(i) => r matches Ok(c) && *c == self.challenges@[i],
                None => r == Err::<&ChallengeConfig, SettingsError>(SettingsError::ChallengeNotFound),
            },
    {
        let mut i: usize = 0;
        while i < self.challenges.len()
            invariant
                0 <= i <= self.challenges@.len(),
                first_config(self.challenges@, id@, 0) == first_config(self.challenges@, id@, i as int),
            decreases self.challenges@.len() - i,
        {
            let c = &self.challenges[i];
            if str_equal(id, c.id.as_str()) {
                return Ok(c);
            }
            i = i + 1;
        }
        Err(SettingsError::ChallengeNotFound)
    }

    /// Whether a submission in `language` to challenge `id` wins the spot
    /// prize, given the earlier scores.
    pub fn gets_a_prize(&self, id: &str, language: &str, previous: &Vec<Score>) -> (r: Result<bool, SettingsError>)
        ensures
            match first_config(self.challenges@, id@, 0) {
                Some(i) => r == Ok::<bool, SettingsError>(
                    wins_prize(self.challenges@[i].language_prize@, language@, score_views(previous@))),
                None => r == Err::<bool, SettingsError>(SettingsError::ChallengeNotFound),
            },
    {
        let challenge = self.get_challenge(id)?;
        challenge.gets_a_prize(language, previous)
    }

    /// Whether challenge `id` may be run now: it is configured and active.
    pub fn allowed_to_run(&self, id: &str) -> (r: Result<bool, SettingsError>)
        ensures
            match first_config(self.challenges@, id@, 0) {
                Some(i) => r == Ok::<bool, SettingsError>(self.challenges@[i].status == Status::Active),
                None => r == Err::<bool, SettingsError>(SettingsError::ChallengeNotFound),
            },
            (r == Ok::<bool, SettingsError>(true)) == allowed(*self, id@),
    {
        let challenge = self.get_challenge(id)?;
        Ok(challenge.status == Status::Active)
    }
}

} // verus!
