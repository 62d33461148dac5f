//! The catalogue of challenges and which of them are open.
use vstd::prelude::*;
use crate::settings::{Settings, allowed};
use crate::text::{str_equal, is_digit};

verus! {

/// One challenge of the code challenge: its title, the command-line code
/// that selects it, the scoreboard table it records to and its description.
#[derive(Debug, Clone)]
pub struct Challenge {
    pub name: String,
    pub command: String,
    pub table: String,
    pub doc: String,
}

impl Challenge {
    /// A field-by-field copy.
    pub fn duplicate(&self) -> (r: Challenge)
        ensures
            r == *self,
    {
        Challenge {
            name: self.name.clone(),
            command: self.command.clone(),
            table: self.table.clone(),
            doc: self.doc.clone(),
        }
    }
}

/// All challenges, in catalogue order.
pub struct Challenges {
    pub challenges: Vec<Challenge>,
}

/// The catalogue: (name, command, table) of each challenge, in order.
pub open spec fn catalogue() -> Seq<(Seq<char>, Seq<char>, Seq<char>)> {
    seq![
        ("Find the odd one out"@, "2331"@, "23_3_1"@),
        ("Find the odd one out two"@, "2332"@, "23_3_2"@),
        ("How big?"@, "2333"@, "23_3_3"@),
        ("Input validation"@, "2334"@, "23_3_4"@),
        ("Input validation"@, "2411"@, "24_1_1"@),
        ("Input validation"@, "2412"@, "24_1_2"@),
        ("Input validation"@, "2413"@, "24_1_3"@),
        ("Input validation"@, "2414"@, "24_1_4"@),
    ]
}

/// A challenge code: four ASCII digits.
pub open spec fn is_code(command: Seq<char>) -> bool {
    &&& command.len() == 4
    &&& is_digit(command[0]) && is_digit(command[1])
    &&& is_digit(command[2]) && is_digit(command[3])
}

/// The scoreboard table of a challenge code: its first two digits, an
/// underscore, its third digit, an underscore and its fourth digit.
pub open spec fn table_of(command: Seq<char>) -> Seq<char> {
    command.subrange(0, 2) + "_"@ + command.subrange(2, 3) + "_"@ + command.subrange(3, 4)
}

proof fn lemma_entry_shape(e: (Seq<char>, Seq<char>, Seq<char>))
    requires
        is_code(e.1),
        e.2.len() == 6,
        e.2[0] == e.1[0],
        e.2[1] == e.1[1],
        e.2[2] == '_',
        e.2[3] == e.1[2],
        e.2[4] == '_',
        e.2[5] == e.1[3],
    ensures
        e.2 == table_of(e.1),
{
    reveal_strlit("_");
    assert(e.2 =~= table_of(e.1));
}

/// Law: every challenge code in the catalogue is four ASCII digits, no two
/// challenges share a code, and each scoreboard table is named after its
/// code.
pub proof fn law_catalogue_codes()
    ensures
        forall|i: int| 0 <= i < catalogue().len() ==> is_code(#[trigger] catalogue()[i].1),
        forall|i: int| 0 <= i < catalogue().len() ==> (#[trigger] catalogue()[i]).2 == table_of(catalogue()[i].1),
        forall|i: int, j: int| 0 <= i < j < catalogue().len()
            ==> (#[trigger] catalogue()[i]).1 != (#[trigger] catalogue()[j]).1,
{
    reveal_strlit("2331");
    reveal_strlit("2332");
    reveal_strlit("2333");
    reveal_strlit("2334");
    reveal_strlit("2411");
    reveal_strlit("2412");
    reveal_strlit("2413");
    reveal_strlit("2414");
    reveal_strlit("23_3_1");
    reveal_strlit("23_3_2");
    reveal_strlit("23_3_3");
    reveal_strlit("23_3_4");
    reveal_strlit("24_1_1");
    reveal_strlit("24_1_2");
    reveal_strlit("24_1_3");
    reveal_strlit("24_1_4");
    let c = catalogue();
    lemma_entry_shape(c[0]);
    lemma_entry_shape(c[1]);
    lemma_entry_shape(c[2]);
    lemma_entry_shape(c[3]);
    lemma_entry_shape(c[4]);
    lemma_entry_shape(c[5]);
    lemma_entry_shape(c[6]);
    lemma_entry_shape(c[7]);
    assert forall|i: int| 0 <= i < c.len() implies is_code(#[trigger] c[i].1) && c[i].2 == table_of(c[i].1) by {
        assert(i == 0 || i == 1 || i == 2 || i == 3 || i == 4 || i == 5 || i == 6 || i == 7);
    }
    assert forall|i: int, j: int| 0 <= i < j < c.len() implies (#[trigger] c[i]).1 != (#[trigger] c[j]).1 by {
        assert(i == 0 || i == 1 || i == 2 || i == 3 || i == 4 || i == 5 || i == 6);
        assert(j == 1 || j == 2 || j == 3 || j == 4 || j == 5 || j == 6 || j == 7);
        assert(c[i].1[2] != c[j].1[2] || c[i].1[3] != c[j].1[3]);
    }
}

/// The (name, command, table) of a challenge.
pub open spec fn entry(c: Challenge) -> (Seq<char>, Seq<char>, Seq<char>) {
    (c.name@, c.command@, c.table@)
}

fn challenge(name: &str, command: &str, table: &str) -> (r: Challenge)
    ensures
        entry(r) == (name@, command@, table@),
        r.doc@.len() == 0,
{
    Challenge {
        name: String::from_str(name),
        command: String::from_str(command),
        table: String::from_str(table),
        doc: String::new(),
    }
}

/// Index of the first challenge whose command is `command`.
pub open spec fn find_challenge(c: Seq<Challenge>, command: Seq<char>, from: int) -> Option<int>
    decreases c.len() - from,
{
    if from < 0 || from >= c.len() {
        None
    } else if c[from].command@ == command {
        Some(from)
    } else {
        find_challenge(c, command, from + 1)
    }
}

/// Index of the first catalogue entry whose command is `command`.
pub open spec fn catalogue_index(command: Seq<char>, from: int) -> Option<int>
    decreases catalogue().len() - from,
{
    if from < 0 || from >= catalogue().len() {
        None
    } else if catalogue()[from].1 == command {
        Some(from)
    } else {
        catalogue_index(command, from + 1)
    }
}

/// The catalogue entry that `command` selects, if it exists and the settings
/// allow it to be run.
pub open spec fn selectable(settings: Settings, command: Seq<char>) -> Option<(Seq<char>, Seq<char>, Seq<char>)> {
    match catalogue_index(command, 0) {
        Some(i) => if allowed(settings, command) { Some(catalogue()[i]) } else { None },
        None => None,
    }
}

/// A list of challenges that lists the catalogue finds the same first entry
/// for a command as the catalogue does.
pub proof fn lemma_find_in_catalogue(c: Seq<Challenge>, command: Seq<char>, from: int)
    requires
        c.map_values(|x: Challenge| entry(x)) == catalogue(),
        0 <= from,
    ensures
        find_challenge(c, command, from) == catalogue_index(command, from),
        find_challenge(c, command, from) matches Some(i) ==> 0 <= i < c.len() && entry(c[i]) == catalogue()[i],
    decreases catalogue().len() - from,
{
    assert(c.len() == catalogue().len());
    if from < c.len() {
        assert(entry(c[from]) == catalogue()[from]);
        lemma_find_in_catalogue(c, command, from + 1);
    }
}

/// The challenges, in order, that the settings allow to run.
pub open spec fn open_challenges(c: Seq<Challenge>, settings: Settings) -> Seq<Challenge>
    decreases c.len(),
{
    if c.len() == 0 {
        seq![]
    } else if allowed(settings, c.last().command@) {
        open_challenges(c.drop_last(), settings).push(c.last())
    } else {
        open_challenges(c.drop_last(), settings)
    }
}

/// No two challenges share a code.
pub open spec fn distinct_codes(c: Seq<Challenge>) -> bool {
    forall|i: int, j: int| 0 <= i < j < c.len() ==> (#[trigger] c[i]).command@ != (#[trigger] c[j]).command@
}

proof fn lemma_find_distinct(c: Seq<Challenge>, i: int, from: int)
    requires
        distinct_codes(c),
        0 <= from <= i < c.len(),
    ensures
        find_challenge(c, c[i].command@, from) == Some(i),
    decreases i - from,
{
    if from < i {
        assert(c[from].command@ != c[i].command@);
        lemma_find_distinct(c, i, from + 1);
    }
}

proof fn lemma_open_contains(c: Seq<Challenge>, settings: Settings, x: Challenge)
    ensures
        open_challenges(c, settings).contains(x) <==> (c.contains(x) && allowed(settings, x.command@)),
    decreases c.len(),
{
    if c.len() > 0 {
        let rest = c.drop_last();
        lemma_open_contains(rest, settings, x);
        let before = open_challenges(rest, settings);
        let now = open_challenges(c, settings);
        if c.contains(x) && allowed(settings, x.command@) {
            let k = choose|k: int| 0 <= k < c.len() && c[k] == x;
            if k < c.len() - 1 {
                assert(rest[k] == x);
                let m = choose|m: int| 0 <= m < before.len() && before[m] == x;
                if allowed(settings, c.last().command@) {
                    assert(now[m] == x);
                }
            } else {
                assert(now[now.len() - 1] == x);
            }
        }
        if now.contains(x) {
            let m = choose|m: int| 0 <= m < now.len() && now[m] == x;
            if m < before.len() {
                assert(before[m] == x);
                let k = choose|k: int| 0 <= k < rest.len() && rest[k] == x;
                assert(c[k] == x);
            } else {
                assert(c[c.len() - 1] == x);
            }
        }
    }
}

/// Law: when no two challenges share a code, looking up a challenge's code
/// finds that challenge, and the challenge is in the open list exactly when
/// the settings allow it to run, that is exactly when the lookup of its code
/// returns it.
pub proof fn law_open_exactly_when_found(c: Seq<Challenge>, settings: Settings, i: int)
    requires
        distinct_codes(c),
        0 <= i < c.len(),
    ensures
        find_challenge(c, c[i].command@, 0) == Some(i),
        open_challenges(c, settings).contains(c[i]) <==> allowed(settings, c[i].command@),
        open_challenges(c, settings).contains(c[i])
            <==> (find_challenge(c, c[i].command@, 0) == Some(i) && allowed(settings, c[i].command@)),
{
    lemma_find_distinct(c, i, 0);
    lemma_open_contains(c, settings, c[i]);
    assert(c.contains(c[i]));
}

/// The text listing of the catalogue: one line `<command> - <name>` per
/// challenge.
pub open spec fn listing(c: Seq<Challenge>) -> Seq<char>
    decreases c.len(),
{
    if c.len() == 0 {
        seq![]
    } else {
        listing(c.drop_last()) + c.last().command@ + " - "@ + c.last().name@ + "\n"@
    }
}

/// The challenge that a generator is made for.
#[derive(Debug, Clone, Copy, PartialEq, Eq, Structural)]
pub enum ChallengeKind {
    C2331,
    C2332,
    C2333,
    C2334,
    C2411,
    C2412,
    C2413,
    C2414,
}

/// Which generator to build, and whether it is for a test run.
#[derive(Debug, Clone, Copy, PartialEq, Eq, Structural)]
pub struct GeneratorChoice {
    pub kind: ChallengeKind,
    pub test: bool,
}

/// The generator kind of a challenge code.
pub open spec fn kind_of(code: Seq<char>) -> Option<ChallengeKind> {
    if code == "2331"@ { Some(ChallengeKind::C2331) }
    else if code == "2332"@ { Some(ChallengeKind::C2332) }
    else if code == "2333"@ { Some(ChallengeKind::C2333) }
    else if code == "2334"@ { Some(ChallengeKind::C2334) }
    else if code == "2411"@ { Some(ChallengeKind::C2411) }
    else if code == "2412"@ { Some(ChallengeKind::C2412) }
    else if code == "2413"@ { Some(ChallengeKind::C2413) }
    else if code == "2414"@ { Some(ChallengeKind::C2414) }
    else { None }
}

impl Challenges {
    /// The full catalogue.
    pub fn new() -> (r: Challenges)
        ensures
            r.challenges@.map_values(|c: Challenge| entry(c)) == catalogue(),
            forall|i: int| 0 <= i < r.challenges@.len() ==> (#[trigger] r.challenges@[i]).doc@.len() == 0,
            distinct_codes(r.challenges@),
    {
        let mut v: Vec<Challenge> = Vec::new();
        v.push(challenge("Find the odd one out", "2331", "23_3_1"));
        v.push(challenge("Find the odd one out two", "2332", "23_3_2"));
        v.push(challenge("How big?", "2333", "23_3_3"));
        v.push(challenge("Input validation", "2334", "23_3_4"));
        v.push(challenge("Input validation", "2411", "24_1_1"));
        v.push(challenge("Input validation", "2412", "24_1_2"));
        v.push(challenge("Input validation", "2413", "24_1_3"));
        v.push(challenge("Input validation", "2414", "24_1_4"));
        assert(v@.map_values(|c: Challenge| entry(c)) =~= catalogue());
        proof {
            law_catalogue_codes();
            assert forall|i: int, j: int| 0 <= i < j < v@.len() implies
                (#[trigger] v@[i]).command@ != (#[trigger] v@[j]).command@ by {
                assert(entry(v@[i]) == catalogue()[i]);
                assert(entry(v@[j]) == catalogue()[j]);
            }
        }
        Challenges { challenges: v }
    }

    /// The challenge selected by `challenge`, if it exists and the settings
    /// allow it to be run.
    pub fn get_challenge(&self, challenge: &str, settings: &Settings) -> (r: Option<&Challenge>)
        ensures
            match find_challenge(self.challenges@, challenge@, 0) {
                Some(i) => if allowed(*settings, challenge@) {
                    r == Some(&self.challenges@[i])
                } else {
                    r is None
                },
                None => r is None,
            },
    {
        let mut i: usize = 0;
        while i < self.challenges.len()
            invariant
                0 <= i <= self.challenges@.len(),
                find_challenge(self.challenges@, challenge@, 0) == find_challenge(self.challenges@, challenge@, i as int),
            decreases self.challenges@.len() - i,
        {
            let c = &self.challenges[i];
            if str_equal(c.command.as_str(), challenge) {
                return match settings.allowed_to_run(c.command.as_str()) {
                    Ok(true) => Some(c),
                    _ => None,
                };
            }
            i = i + 1;
        }
        None
    }

    /// The challenges that the settings allow to be run, in catalogue order.
    pub fn get_open_challenges(&self, settings: &Settings) -> (r: Vec<&Challenge>)
        ensures
            r@.map_values(|c: &Challenge| *c) == open_challenges(self.challenges@, *settings),
    {
        let mut open: Vec<&Challenge> = Vec::new();
        let mut i: usize = 0;
        while i < self.challenges.len()
            invariant
                0 <= i <= self.challenges@.len(),
                open@.map_values(|c: &Challenge| *c) == open_challenges(self.challenges@.subrange(0, i as int), *settings),
            decreases self.challenges@.len() - i,
        {
            let ghost prefix = self.challenges@.subrange(0, i as int + 1);
            assert(prefix.drop_last() =~= self.challenges@.subrange(0, i as int));
            let c = &self.challenges[i];
            let ghost before = open@;
            if let Ok(true) = settings.allowed_to_run(c.command.as_str()) {
                open.push(c);
                assert(open@.map_values(|c: &Challenge| *c) =~= before.map_values(|c: &Challenge| *c).push(*c));
            }
            i = i + 1;
        }
        assert(self.challenges@.subrange(0, self.challenges@.len() as int) =~= self.challenges@);
        open
    }

    /// Which generator runs the challenge selected by `challenge`.
    pub fn make_generator(&self, challenge: &str, test: bool) -> (r: Option<GeneratorChoice>)
        ensures
            r == match kind_of(challenge@) {
                Some(k) => Some(GeneratorChoice { kind: k, test }),
                None => None,
            },
    {
        let kind = if str_equal(challenge, "2331") { ChallengeKind::C2331 }
            else if str_equal(challenge, "2332") { ChallengeKind::C2332 }
            else if str_equal(challenge, "2333") { ChallengeKind::C2333 }
            else if str_equal(challenge, "2334") { ChallengeKind::C2334 }
            else if str_equal(challenge, "2411") { ChallengeKind::C2411 }
            else if str_equal(challenge, "2412") { ChallengeKind::C2412 }
            else if str_equal(challenge, "2413") { ChallengeKind::C2413 }
            else if str_equal(challenge, "2414") { ChallengeKind::C2414 }
            else { return None; };
        Some(GeneratorChoice { kind, test })
    }

    /// The catalogue as text, one `<command> - <name>` line per challenge.
    pub fn to_display_string(&self) -> (r: String)
        ensures
            r@ == listing(self.challenges@),
    {
        let mut s = String::new();
        let mut i: usize = 0;
        while i < self.challenges.len()
            invariant
                0 <= i <= self.challenges@.len(),
                s@ == listing(self.challenges@.subrange(0, i as int)),
            decreases self.challenges@.len() - i,
        {
            let ghost prefix = self.challenges@.subrange(0, i as int + 1);
            assert(prefix.drop_last() =~= self.challenges@.subrange(0, i as int));
            let c = &self.challenges[i];
            s.append(c.command.as_str());
            s.append(" - ");
            s.append(c.name.as_str());
            s.append("\n");
            assert(s@ =~= listing(prefix));
            i = i + 1;
        }
        assert(self.challenges@.subrange(0, self.challenges@.len() as int) =~= self.challenges@);
        s
    }
}

} // verus!
