//! Command-line configuration: what the judge is asked to do, and the
//! settings of a scoreboard read or of a submission.
use vstd::prelude::*;
use crate::challenges::{Challenge, Challenges, entry, catalogue, selectable, lemma_find_in_catalogue};
use crate::settings::Settings;
use crate::text::{str_equal, to_lowercase, lowercase_of, parse_unsigned, parse_unsigned_spec, num_error_message, decimal, law_parse_decimal};

verus! {

/// The column a scoreboard is sorted by.
#[derive(Debug, Clone, Copy, PartialEq, Eq, Structural)]
pub enum SortColumn {
    PlayerName,
    Binary,
    Language,
    Time,
}

/// The column named by a (lower-cased) word.
pub open spec fn sort_word(w: Seq<char>) -> Option<SortColumn> {
    if w == "player"@ || w == "players"@ || w == "name"@ || w == "names"@ {
        Some(SortColumn::PlayerName)
    } else if w == "binaries"@ || w == "binary"@ {
        Some(SortColumn::Binary)
    } else if w == "time"@ || w == "times"@ {
        Some(SortColumn::Time)
    } else if w == "language"@ || w == "languages"@ {
        Some(SortColumn::Language)
    } else {
        None
    }
}

/// What reading a word as a sort column gives: the column its lower-cased
/// form names, or the error message.
pub open spec fn sort_column_of(s: Seq<char>) -> Result<SortColumn, Seq<char>> {
    match sort_word(lowercase_of(s)) {
        Some(c) => Ok(c),
        None => Err("invalid sort column: "@ + s),
    }
}

/// Reads a sort column from a word.
///
/// Trusted: `scoreboard_db::SortColumn::from_str` lower-cases the word with
/// `str::to_lowercase` and accepts player(s)/name(s), binary/binaries,
/// time(s) and language(s); any other word gives the message
/// `invalid sort column: <word>`.  The variants are carried over one for one.
#[verifier::external_body]
fn parse_sort_column(s: &str) -> (r: Result<SortColumn, String>)
    ensures
        match (r, sort_column_of(s@)) {
            (Ok(a), Ok(b)) => a == b,
            (Err(a), Err(b)) => a@ == b,
            _ => false,
        },
{
    match <scoreboard_db::SortColumn as std::str::FromStr>::from_str(s) {
        Ok(scoreboard_db::SortColumn::PlayerName) => Ok(SortColumn::PlayerName),
        Ok(scoreboard_db::SortColumn::Binary) => Ok(SortColumn::Binary),
        Ok(scoreboard_db::SortColumn::Language) => Ok(SortColumn::Language),
        Ok(scoreboard_db::SortColumn::Time) => Ok(SortColumn::Time),
        Err(e) => Err(e),
    }
}

/// A scoreboard filter requested on the command line; they are applied in
/// the order given.
#[derive(Debug, Clone)]
pub enum Filter {
    Top(usize),
    Player(Vec<String>),
    Binary(Vec<String>),
    Language(Vec<String>),
    UniquePlayers,
    UniqueBinaries,
    UniqueLanguages,
    Sort(SortColumn),
}

/// The mathematical content of a filter.
pub enum FilterView {
    Top(usize),
    Player(Seq<Seq<char>>),
    Binary(Seq<Seq<char>>),
    Language(Seq<Seq<char>>),
    UniquePlayers,
    UniqueBinaries,
    UniqueLanguages,
    Sort(SortColumn),
}

/// The contents of a list of strings.
pub open spec fn texts(v: Seq<String>) -> Seq<Seq<char>> {
    v.map_values(|s: String| s@)
}

impl View for Filter {
    type V = FilterView;

    open spec fn view(&self) -> FilterView {
        match self {
            Filter::Top(n) => FilterView::Top(*n),
            Filter::Player(v) => FilterView::Player(texts(v@)),
            Filter::Binary(v) => FilterView::Binary(texts(v@)),
            Filter::Language(v) => FilterView::Language(texts(v@)),
            Filter::UniquePlayers => FilterView::UniquePlayers,
            Filter::UniqueBinaries => FilterView::UniqueBinaries,
            Filter::UniqueLanguages => FilterView::UniqueLanguages,
            Filter::Sort(c) => FilterView::Sort(*c),
        }
    }
}

/// The contents of a list of filters.
pub open spec fn filter_views(v: Seq<Filter>) -> Seq<FilterView> {
    v.map_values(|f: Filter| f@)
}

/// Settings of a scoreboard read: the challenge and the filters, in order.
#[derive(Debug, Clone)]
pub struct ReadConfig {
    pub challenge: Challenge,
    pub filters: Vec<Filter>,
}

/// Settings of a submission.
#[derive(Debug, Clone)]
pub struct WriteConfig {
    pub name: String,
    pub command: String,
    pub publish: bool,
    pub test_mode: bool,
    pub challenge: Challenge,
    pub language: String,
}

/// What an announcement on the team channel is about.
#[derive(Debug, Clone, Copy, PartialEq, Eq, Structural)]
pub enum AnnouncementKind {
    /// A new release of the judge.
    Release,
    /// A newly opened challenge.
    Launch,
}

/// The announcement named by the word after `--announcement`.
pub open spec fn announcement_kind(word: Seq<char>) -> Option<AnnouncementKind> {
    if word == "release"@ {
        Some(AnnouncementKind::Release)
    } else if word == "launch"@ {
        Some(AnnouncementKind::Launch)
    } else {
        None
    }
}

/// What the judge is asked to do.
#[derive(Debug, Clone)]
pub enum RunMode {
    Update(WriteConfig),
    Read(ReadConfig),
    Wipe(String),
    Announce(AnnouncementKind),
}

/// What the command line asks for.
#[derive(Debug, Clone)]
pub enum ArgsOutcome {
    /// Print the help text.
    Help,
    /// Print the version.
    Version,
    /// Print the list of challenges.
    ListChallenges,
    /// Print the description of this challenge.
    ShowChallenge(Challenge),
    /// Run in this mode.
    Mode(RunMode),
}

/// Why the command line cannot be used.
#[derive(Debug, Clone)]
pub enum ArgsError {
    /// A malformed or missing argument, with its message.
    Message(String),
    /// A challenge code that does not select an open challenge (the list of
    /// challenges is printed and the judge exits with status 1).
    UnknownChallenge(String),
    /// No mode was requested (the help text is printed).
    NoMode,
}

/// The mathematical content of an argument error.
pub enum ArgsErrorView {
    Message(Seq<char>),
    UnknownChallenge(Seq<char>),
    NoMode,
}

impl View for ArgsError {
    type V = ArgsErrorView;

    open spec fn view(&self) -> ArgsErrorView {
        match self {
            ArgsError::Message(m) => ArgsErrorView::Message(m@),
            ArgsError::UnknownChallenge(c) => ArgsErrorView::UnknownChallenge(c@),
            ArgsError::NoMode => ArgsErrorView::NoMode,
        }
    }
}

/// A challenge as (name, command, table).
pub type ChallengeEntry = (Seq<char>, Seq<char>, Seq<char>);

/// The contents of the arguments.
pub open spec fn arg_views(args: Seq<String>) -> Seq<Seq<char>> {
    args.map_values(|s: String| s@)
}

/// The argument after position `i`, if any.
pub open spec fn next_arg(args: Seq<Seq<char>>, i: int) -> Option<Seq<char>> {
    if 0 <= i + 1 < args.len() { Some(args[i + 1]) } else { None }
}

/// "The flag must be followed by a value" message.
pub open spec fn needs_string(flag: Seq<char>) -> Seq<char> {
    flag + " must provide a string"@
}

/// State of a scoreboard-read scan: the selected challenge and the filters
/// requested so far.
pub struct ReadState {
    pub challenge: ChallengeEntry,
    pub filters: Seq<FilterView>,
}

/// The filter that a `--unique` word asks for, if any.
pub open spec fn unique_word(w: Seq<char>) -> Option<FilterView> {
    if w == "players"@ || w == "names"@ || w == "name"@ || w == "player"@ {
        Some(FilterView::UniquePlayers)
    } else if w == "language"@ || w == "languages"@ {
        Some(FilterView::UniqueLanguages)
    } else if w == "binary"@ || w == "binaries"@ || w == "bin"@ || w == "command"@ {
        Some(FilterView::UniqueBinaries)
    } else {
        None
    }
}

/// What the argument at position `i` does to a scoreboard-read scan.
pub open spec fn read_step(args: Seq<Seq<char>>, i: int, st: ReadState, settings: Settings) -> Result<ReadState, ArgsErrorView> {
    let a = args[i];
    if a == "-l"@ {
        match next_arg(args, i) {
            None => Err(ArgsErrorView::Message(needs_string("-l"@))),
            Some(v) => match parse_unsigned_spec(v, usize::MAX as int) {
                Ok(n) => Ok(ReadState { filters: st.filters.push(FilterView::Top(n as usize)), ..st }),
                Err(e) => Err(ArgsErrorView::Message("-l must provide a number: "@ + num_error_message(e))),
            },
        }
    } else if a == "-C"@ {
        match next_arg(args, i) {
            None => Err(ArgsErrorView::Message(needs_string("-C"@))),
            Some(c) => match selectable(settings, c) {
                Some(e) => Ok(ReadState { challenge: e, ..st }),
                None => Err(ArgsErrorView::UnknownChallenge(c)),
            },
        }
    } else if a == "--unique"@ {
        match next_arg(args, i) {
            None => Err(ArgsErrorView::Message(needs_string("--unique"@))),
            Some(w) => match unique_word(w) {
                Some(f) => Ok(ReadState { filters: st.filters.push(f), ..st }),
                None => Ok(st),
            },
        }
    } else if a == "--player"@ {
        match next_arg(args, i) {
            None => Err(ArgsErrorView::Message(needs_string("--player"@))),
            Some(v) => Ok(ReadState { filters: st.filters.push(FilterView::Player(seq![v])), ..st }),
        }
    } else if a == "--language"@ {
        match next_arg(args, i) {
            None => Err(ArgsErrorView::Message(needs_string("--language"@))),
            Some(v) => Ok(ReadState { filters: st.filters.push(FilterView::Language(seq![v])), ..st }),
        }
    } else if a == "--binary"@ {
        match next_arg(args, i) {
            None => Err(ArgsErrorView::Message(needs_string("--binary"@))),
            Some(v) => Ok(ReadState { filters: st.filters.push(FilterView::Binary(seq![v])), ..st }),
        }
    } else if a == "--sort"@ {
        match next_arg(args, i) {
            None => Err(ArgsErrorView::Message(needs_string("--sort"@))),
            Some(v) => match sort_column_of(v) {
                Ok(c) => Ok(ReadState { filters: st.filters.push(FilterView::Sort(c)), ..st }),
                Err(m) => Err(ArgsErrorView::Message(m)),
            },
        }
    } else {
        Ok(st)
    }
}

/// The scoreboard-read scan over the first `n` arguments, stopping at the
/// first error.
pub open spec fn read_scan(args: Seq<Seq<char>>, n: int, init: ReadState, settings: Settings) -> Result<ReadState, ArgsErrorView>
    decreases n,
{
    if n <= 0 {
        Ok(init)
    } else {
        match read_scan(args, n - 1, init, settings) {
            Ok(st) => read_step(args, n - 1, st, settings),
            Err(e) => Err(e),
        }
    }
}

/// Law: on the scoreboard command line, `--player`, `--language` and
/// `--binary`, each followed by a value, append to the filters gathered before
/// them exactly one filter, of their own kind, holding that value, and leave
/// the selected challenge as it is.
pub proof fn law_value_flags_add_their_filter(args: Seq<Seq<char>>, i: int, init: ReadState, settings: Settings)
    requires
        0 <= i,
        i + 1 < args.len(),
    ensures
        read_scan(args, i, init, settings) matches Ok(st) ==> {
            &&& args[i] == "--player"@ ==> read_scan(args, i + 1, init, settings)
                == Ok::<ReadState, ArgsErrorView>(ReadState {
                    challenge: st.challenge,
                    filters: st.filters.push(FilterView::Player(seq![args[i + 1]])),
                })
            &&& args[i] == "--language"@ ==> read_scan(args, i + 1, init, settings)
                == Ok::<ReadState, ArgsErrorView>(ReadState {
                    challenge: st.challenge,
                    filters: st.filters.push(FilterView::Language(seq![args[i + 1]])),
                })
            &&& args[i] == "--binary"@ ==> read_scan(args, i + 1, init, settings)
                == Ok::<ReadState, ArgsErrorView>(ReadState {
                    challenge: st.challenge,
                    filters: st.filters.push(FilterView::Binary(seq![args[i + 1]])),
                })
        },
{
    reveal_strlit("-l");
    reveal_strlit("-C");
    reveal_strlit("--unique");
    reveal_strlit("--player");
    reveal_strlit("--language");
    reveal_strlit("--binary");
    if let Ok(st) = read_scan(args, i, init, settings) {
        assert(read_scan(args, i + 1, init, settings) == read_step(args, i, st, settings));
        assert(next_arg(args, i) == Some(args[i + 1]));
        let a = args[i];
        assert("--unique"@[2] == 'u' && "--player"@[2] == 'p' && "--binary"@[2] == 'b');
        if a == "--player"@ || a == "--language"@ || a == "--binary"@ {
            assert(a != "-l"@);
            assert(a != "-C"@);
            assert(a != "--unique"@);
        }
        if a == "--language"@ || a == "--binary"@ {
            assert(a != "--player"@);
        }
        if a == "--binary"@ {
            assert(a != "--language"@);
        }
    }
}

/// Law: on the scoreboard command line, `-l` followed by the decimal rendering
/// of a number appends exactly the filter that keeps that many entries, and
/// `--unique` followed by `players`, `language` or `binaries` appends exactly
/// the filter that keeps the first score per player, per language or per
/// binary; the selected challenge stays as it is.
pub proof fn law_limit_and_unique_flags(args: Seq<Seq<char>>, i: int, init: ReadState, settings: Settings, n: nat)
    requires
        0 <= i,
        i + 1 < args.len(),
    ensures
        read_scan(args, i, init, settings) matches Ok(st) ==> {
            &&& args[i] == "-l"@ && args[i + 1] == decimal(n) && n <= usize::MAX
                ==> read_scan(args, i + 1, init, settings) == Ok::<ReadState, ArgsErrorView>(ReadState {
                    challenge: st.challenge,
                    filters: st.filters.push(FilterView::Top(n as usize)),
                })
            &&& args[i] == "--unique"@ && args[i + 1] == "players"@
                ==> read_scan(args, i + 1, init, settings) == Ok::<ReadState, ArgsErrorView>(ReadState {
                    challenge: st.challenge,
                    filters: st.filters.push(FilterView::UniquePlayers),
                })
            &&& args[i] == "--unique"@ && args[i + 1] == "language"@
                ==> read_scan(args, i + 1, init, settings) == Ok::<ReadState, ArgsErrorView>(ReadState {
                    challenge: st.challenge,
                    filters: st.filters.push(FilterView::UniqueLanguages),
                })
            &&& args[i] == "--unique"@ && args[i + 1] == "binaries"@
                ==> read_scan(args, i + 1, init, settings) == Ok::<ReadState, ArgsErrorView>(ReadState {
                    challenge: st.challenge,
                    filters: st.filters.push(FilterView::UniqueBinaries),
                })
        },
{
    reveal_strlit("-l");
    reveal_strlit("-C");
    reveal_strlit("--unique");
    reveal_strlit("players");
    reveal_strlit("language");
    reveal_strlit("binaries");
    reveal_strlit("names");
    reveal_strlit("name");
    reveal_strlit("player");
    reveal_strlit("languages");
    reveal_strlit("binary");
    reveal_strlit("bin");
    reveal_strlit("command");
    if n <= usize::MAX {
        law_parse_decimal(n, usize::MAX as int);
    }
    if let Ok(st) = read_scan(args, i, init, settings) {
        assert(read_scan(args, i + 1, init, settings) == read_step(args, i, st, settings));
        assert(next_arg(args, i) == Some(args[i + 1]));
    }
}

/// Once the scan has failed it stays failed with the same error.
pub proof fn lemma_read_scan_err(args: Seq<Seq<char>>, k: int, n: int, init: ReadState, settings: Settings)
    requires
        0 <= k <= n,
        read_scan(args, k, init, settings) is Err,
    ensures
        read_scan(args, n, init, settings) == read_scan(args, k, init, settings),
    decreases n - k,
{
    if n > k {
        lemma_read_scan_err(args, k, n - 1, init, settings);
    }
}

/// Once the scan has failed it stays failed with the same error.
pub proof fn lemma_write_scan_err(args: Seq<Seq<char>>, k: int, n: int, init: WriteState, user: Seq<char>, settings: Settings)
    requires
        0 <= k <= n,
        write_scan(args, k, init, user, settings) is Err,
    ensures
        write_scan(args, n, init, user, settings) == write_scan(args, k, init, user, settings),
    decreases n - k,
{
    if n > k {
        lemma_write_scan_err(args, k, n - 1, init, user, settings);
    }
}

/// The default challenge of a configuration ("2331"), when the settings
/// allow it.
pub open spec fn default_challenge(settings: Settings) -> Option<ChallengeEntry> {
    selectable(settings, "2331"@)
}

/// What `ReadConfig::from_args` gives for the arguments.
pub open spec fn read_config_of(args: Seq<Seq<char>>, settings: Settings) -> Result<ReadState, ArgsErrorView> {
    read_scan(args, args.len() as int, ReadState { challenge: default_challenge(settings).unwrap(), filters: seq![] }, settings)
}

/// State of a submission scan.
pub struct WriteState {
    pub name: Seq<char>,
    pub command: Option<Seq<char>>,
    pub publish: bool,
    pub test_mode: bool,
    pub challenge: ChallengeEntry,
    pub language: Option<Seq<char>>,
}

/// What the argument at position `i` does to a submission scan, for the
/// user `user`.
pub open spec fn write_step(args: Seq<Seq<char>>, i: int, st: WriteState, user: Seq<char>, settings: Settings) -> Result<WriteState, ArgsErrorView> {
    let a = args[i];
    if a == "-C"@ {
        match next_arg(args, i) {
            None => Err(ArgsErrorView::Message(needs_string("-C"@))),
            Some(c) => match selectable(settings, c) {
                Some(e) => Ok(WriteState { challenge: e, ..st }),
                None => Err(ArgsErrorView::UnknownChallenge(c)),
            },
        }
    } else if a == "-n"@ {
        if user != "root"@ {
            Err(ArgsErrorView::Message("-n has been deprecated. Do not use anymore."@))
        } else {
            match next_arg(args, i) {
                None => Err(ArgsErrorView::Message(needs_string("-n"@))),
                Some(v) => Ok(WriteState { name: v, ..st }),
            }
        }
    } else if a == "-c"@ {
        match next_arg(args, i) {
            None => Err(ArgsErrorView::Message(needs_string("-c"@))),
            Some(v) => Ok(WriteState { command: Some(v), ..st }),
        }
    } else if a == "-t"@ {
        Ok(WriteState { test_mode: true, ..st })
    } else if a == "-q"@ {
        Ok(WriteState { publish: false, ..st })
    } else if a == "-L"@ {
        match next_arg(args, i) {
            None => Err(ArgsErrorView::Message(needs_string("-L"@))),
            Some(v) => Ok(WriteState { language: Some(lowercase_of(v)), ..st }),
        }
    } else {
        Ok(st)
    }
}

/// The submission scan over the first `n` arguments, stopping at the first
/// error.
pub open spec fn write_scan(args: Seq<Seq<char>>, n: int, init: WriteState, user: Seq<char>, settings: Settings) -> Result<WriteState, ArgsErrorView>
    decreases n,
{
    if n <= 0 {
        Ok(init)
    } else {
        match write_scan(args, n - 1, init, user, settings) {
            Ok(st) => write_step(args, n - 1, st, user, settings),
            Err(e) => Err(e),
        }
    }
}

/// The settings of a submission made by `user`: after the scan, test mode
/// turns publishing off, and the command and language must have been given.
pub open spec fn write_config_of(args: Seq<Seq<char>>, user: Seq<char>, settings: Settings) -> Result<WriteState, ArgsErrorView> {
    let init = WriteState {
        name: user,
        command: None,
        publish: true,
        test_mode: false,
        challenge: default_challenge(settings).unwrap(),
        language: None,
    };
    match write_scan(args, args.len() as int, init, user, settings) {
        Err(e) => Err(e),
        Ok(st) => if st.command is None {
            Err(ArgsErrorView::Message("-c must be provided"@))
        } else if st.language is None {
            Err(ArgsErrorView::Message("-L must be provided"@))
        } else {
            Ok(WriteState { publish: st.publish && !st.test_mode, ..st })
        },
    }
}

/// A read configuration holds the given read state.
pub open spec fn read_config_is(c: ReadConfig, st: ReadState) -> bool {
    &&& entry(c.challenge) == st.challenge
    &&& c.challenge.doc@.len() == 0
    &&& filter_views(c.filters@) == st.filters
}

/// A write configuration holds the given (finished) write state.
pub open spec fn write_config_is(c: WriteConfig, st: WriteState) -> bool {
    &&& c.name@ == st.name
    &&& st.command == Some(c.command@)
    &&& st.language == Some(c.language@)
    &&& c.publish == st.publish
    &&& c.test_mode == st.test_mode
    &&& entry(c.challenge) == st.challenge
    &&& c.challenge.doc@.len() == 0
}

/// Whether `flag` is one of the arguments.
fn has_arg(args: &Vec<String>, flag: &str) -> (r: bool)
    ensures
        r == arg_views(args@).contains(flag@),
{
    let ghost av = arg_views(args@);
    let mut i: usize = 0;
    while i < args.len()
        invariant
            0 <= i <= args@.len(),
            av == arg_views(args@),
            forall|j: int| 0 <= j < i ==> av[j] != flag@,
        decreases args@.len() - i,
    {
        if str_equal(args[i].as_str(), flag) {
            assert(av[i as int] == flag@);
            return true;
        }
        i = i + 1;
    }
    false
}

/// The position of the first occurrence of `flag` among the arguments.
fn position_of(args: &Vec<String>, flag: &str) -> (r: usize)
    requires
        arg_views(args@).contains(flag@),
    ensures
        r < args@.len(),
        arg_views(args@)[r as int] == flag@,
        forall|j: int| 0 <= j < r ==> arg_views(args@)[j] != flag@,
{
    let ghost av = arg_views(args@);
    let mut i: usize = 0;
    while i < args.len()
        invariant
            0 <= i <= args@.len(),
            av == arg_views(args@),
            av.contains(flag@),
            forall|j: int| 0 <= j < i ==> av[j] != flag@,
        decreases args@.len() - i,
    {
        if str_equal(args[i].as_str(), flag) {
            return i;
        }
        i = i + 1;
    }
    i
}

/// The argument after position `i`, if any.
fn get_next<'a>(args: &'a Vec<String>, i: usize) -> (r: Option<&'a String>)
    requires
        i < args@.len(),
    ensures
        match (r, next_arg(arg_views(args@), i as int)) {
            (Some(a), Some(b)) => a@ == b,
            (None, None) => true,
            _ => false,
        },
{
    if i < args.len() - 1 {
        Some(&args[i + 1])
    } else {
        None
    }
}

fn message(s: &str) -> (r: ArgsError)
    ensures
        r@ == ArgsErrorView::Message(s@),
{
    ArgsError::Message(String::from_str(s))
}

fn must_provide(flag: &str) -> (r: ArgsError)
    ensures
        r@ == ArgsErrorView::Message(needs_string(flag@)),
{
    let mut m = String::from_str(flag);
    m.append(" must provide a string");
    ArgsError::Message(m)
}

/// The open challenge selected by `code`, from the catalogue.
fn select_challenge(challenges: &Challenges, code: &str, settings: &Settings) -> (r: Option<Challenge>)
    requires
        challenges.challenges@.map_values(|c: Challenge| entry(c)) == catalogue(),
        forall|i: int| 0 <= i < challenges.challenges@.len() ==> (#[trigger] challenges.challenges@[i]).doc@.len() == 0,
    ensures
        match (r, selectable(*settings, code@)) {
            (Some(c), Some(e)) => entry(c) == e && c.doc@.len() == 0,
            (None, None) => true,
            _ => false,
        },
{
    proof {
        lemma_find_in_catalogue(challenges.challenges@, code@, 0);
    }
    match challenges.get_challenge(code, settings) {
        Some(c) => {
            let d = c.duplicate();
            proof {
                let i = crate::challenges::find_challenge(challenges.challenges@, code@, 0).unwrap();
                assert(*c == challenges.challenges@[i]);
                assert(challenges.challenges@[i].doc@.len() == 0);
            }
            Some(d)
        },
        None => None,
    }
}

/// The word after `--unique`, as a filter.
fn unique_filter(w: &str) -> (r: Option<Filter>)
    ensures
        match (r, unique_word(w@)) {
            (Some(a), Some(b)) => a@ == b,
            (None, None) => true,
            _ => false,
        },
{
    if str_equal(w, "players") || str_equal(w, "names") || str_equal(w, "name") || str_equal(w, "player") {
        Some(Filter::UniquePlayers)
    } else if str_equal(w, "language") || str_equal(w, "languages") {
        Some(Filter::UniqueLanguages)
    } else if str_equal(w, "binary") || str_equal(w, "binaries") || str_equal(w, "bin") || str_equal(w, "command") {
        Some(Filter::UniqueBinaries)
    } else {
        None
    }
}

fn single(v: &String) -> (r: Vec<String>)
    ensures
        texts(r@) == seq![v@],
{
    let mut r: Vec<String> = Vec::new();
    r.push(v.clone());
    assert(texts(r@) =~= seq![v@]);
    r
}

/// Applies the argument at position `i` to a scoreboard-read scan.
fn read_arg(
    args: &Vec<String>,
    i: usize,
    challenges: &Challenges,
    settings: &Settings,
    challenge: &mut Challenge,
    filters: &mut Vec<Filter>,
) -> (r: Result<(), ArgsError>)
    requires
        i < args@.len(),
        challenges.challenges@.map_values(|c: Challenge| entry(c)) == catalogue(),
        forall|k: int| 0 <= k < challenges.challenges@.len() ==> (#[trigger] challenges.challenges@[k]).doc@.len() == 0,
        old(challenge).doc@.len() == 0,
    ensures
        final(challenge).doc@.len() == 0,
        match (r, read_step(arg_views(args@), i as int,
            ReadState { challenge: entry(*old(challenge)), filters: filter_views(old(filters)@) }, *settings)) {
            (Ok(_), Ok(st)) => st == ReadState { challenge: entry(*final(challenge)), filters: filter_views(final(filters)@) },
            (Err(a), Err(b)) => a@ == b,
            _ => false,
        },
{
    let ghost av = arg_views(args@);
    let ghost before = filters@;
    let arg = args[i].as_str();
    assert(av[i as int] == arg@);
    let mut added: Option<Filter> = None;
    if str_equal(arg, "-l") {
        let v = match get_next(args, i) {
            Some(v) => v,
            None => {
                return Err(must_provide("-l"));
            },
        };
        match parse_unsigned(v.as_str(), usize::MAX as u64) {
            Ok(n) => {
                added = Some(Filter::Top(n as usize));
            },
            Err(e) => {
                let mut m = String::from_str("-l must provide a number: ");
                let em = e.message();
                m.append(em.as_str());
                return Err(ArgsError::Message(m));
            },
        }
    } else if str_equal(arg, "-C") {
        let c = match get_next(args, i) {
            Some(c) => c,
            None => {
                return Err(must_provide("-C"));
            },
        };
        match select_challenge(challenges, c.as_str(), settings) {
            Some(ch) => {
                *challenge = ch;
            },
            None => {
                return Err(ArgsError::UnknownChallenge(c.clone()));
            },
        }
    } else if str_equal(arg, "--unique") {
        let w = match get_next(args, i) {
            Some(w) => w,
            None => {
                return Err(must_provide("--unique"));
            },
        };
        added = unique_filter(w.as_str());
    } else if str_equal(arg, "--player") {
        match get_next(args, i) {
            Some(v) => {
                added = Some(Filter::Player(single(v)));
            },
            None => {
                return Err(must_provide("--player"));
            },
        }
    } else if str_equal(arg, "--language") {
        match get_next(args, i) {
            Some(v) => {
                added = Some(Filter::Language(single(v)));
            },
            None => {
                return Err(must_provide("--language"));
            },
        }
    } else if str_equal(arg, "--binary") {
        match get_next(args, i) {
            Some(v) => {
                added = Some(Filter::Binary(single(v)));
            },
            None => {
                return Err(must_provide("--binary"));
            },
        }
    } else if str_equal(arg, "--sort") {
        let v = match get_next(args, i) {
            Some(v) => v,
            None => {
                return Err(must_provide("--sort"));
            },
        };
        match parse_sort_column(v.as_str()) {
            Ok(c) => {
                added = Some(Filter::Sort(c));
            },
            Err(m) => {
                return Err(ArgsError::Message(m));
            },
        }
    }
    match added {
        Some(f) => {
            let ghost fv = f@;
            filters.push(f);
            assert(filter_views(filters@) =~= filter_views(before).push(fv));
        },
        None => {},
    }
    Ok(())
}

impl ReadConfig {
    /// Reads the scoreboard settings from the arguments: the challenge
    /// (`-C`, "2331" by default) and the filters (`-l`, `--unique`,
    /// `--player`, `--language`, `--binary`, `--sort`) in the order given.
    pub fn from_args(args: &Vec<String>, settings: &Settings) -> (r: Result<ReadConfig, ArgsError>)
        requires
            default_challenge(*settings) is Some,
        ensures
            match (r, read_config_of(arg_views(args@), *settings)) {
                (Ok(c), Ok(st)) => read_config_is(c, st),
                (Err(a), Err(b)) => a@ == b,
                _ => false,
            },
    {
        let challenges = Challenges::new();
        let ghost av = arg_views(args@);
        let ghost init = ReadState { challenge: default_challenge(*settings).unwrap(), filters: seq![] };
        let mut challenge = match select_challenge(&challenges, "2331", settings) {
            Some(c) => c,
            None => {
                return Err(message("2331"));
            },
        };
        let mut filters: Vec<Filter> = Vec::new();
        let mut i: usize = 0;
        assert(filter_views(filters@) =~= seq![]);
        while i < args.len()
            invariant
                0 <= i <= args@.len(),
                av == arg_views(args@),
                init == (ReadState { challenge: default_challenge(*settings).unwrap(), filters: seq![] }),
                challenges.challenges@.map_values(|c: Challenge| entry(c)) == catalogue(),
                forall|k: int| 0 <= k < challenges.challenges@.len() ==> (#[trigger] challenges.challenges@[k]).doc@.len() == 0,
                read_scan(av, i as int, init, *settings) == Ok::<ReadState, ArgsErrorView>(
                    ReadState { challenge: entry(challenge), filters: filter_views(filters@) }),
                challenge.doc@.len() == 0,
            decreases args@.len() - i,
        {
            let ghost st = ReadState { challenge: entry(challenge), filters: filter_views(filters@) };
            let r = read_arg(args, i, &challenges, settings, &mut challenge, &mut filters);
            if let Err(e) = r {
                proof {
                    assert(read_step(av, i as int, st, *settings) == Err::<ReadState, ArgsErrorView>(e@));
                    assert(read_scan(av, i as int + 1, init, *settings) == Err::<ReadState, ArgsErrorView>(e@));
                    lemma_read_scan_err(av, i as int + 1, av.len() as int, init, *settings);
                }
                return Err(e);
            }
            i = i + 1;
        }
        Ok(ReadConfig { challenge, filters })
    }
}

/// The mutable part of a submission scan.
struct WriteScan {
    name: String,
    command: Option<String>,
    publish: bool,
    test_mode: bool,
    challenge: Challenge,
    language: Option<String>,
}

/// The mathematical content of a submission scan.
spec fn scan_state(w: WriteScan) -> WriteState {
    WriteState {
        name: w.name@,
        command: match w.command { Some(c) => Some(c@), None => None },
        publish: w.publish,
        test_mode: w.test_mode,
        challenge: entry(w.challenge),
        language: match w.language { Some(l) => Some(l@), None => None },
    }
}

/// Applies the argument at position `i` to a submission scan.
fn write_arg(
    args: &Vec<String>,
    i: usize,
    user: &str,
    challenges: &Challenges,
    settings: &Settings,
    st: &mut WriteScan,
) -> (r: Result<(), ArgsError>)
    requires
        i < args@.len(),
        challenges.challenges@.map_values(|c: Challenge| entry(c)) == catalogue(),
        forall|k: int| 0 <= k < challenges.challenges@.len() ==> (#[trigger] challenges.challenges@[k]).doc@.len() == 0,
        old(st).challenge.doc@.len() == 0,
    ensures
        final(st).challenge.doc@.len() == 0,
        match (r, write_step(arg_views(args@), i as int, scan_state(*old(st)), user@, *settings)) {
            (Ok(_), Ok(s)) => s == scan_state(*final(st)),
            (Err(a), Err(b)) => a@ == b,
            _ => false,
        },
{
    let ghost av = arg_views(args@);
    let arg = args[i].as_str();
    assert(av[i as int] == arg@);
    if str_equal(arg, "-C") {
        let c = match get_next(args, i) {
            Some(c) => c,
            None => {
                return Err(must_provide("-C"));
            },
        };
        match select_challenge(challenges, c.as_str(), settings) {
            Some(ch) => {
                st.challenge = ch;
            },
            None => {
                return Err(ArgsError::UnknownChallenge(c.clone()));
            },
        }
    } else if str_equal(arg, "-n") {
        if !str_equal(user, "root") {
            return Err(message("-n has been deprecated. Do not use anymore."));
        }
        match get_next(args, i) {
            Some(v) => {
                st.name = v.clone();
            },
            None => {
                return Err(must_provide("-n"));
            },
        }
    } else if str_equal(arg, "-c") {
        match get_next(args, i) {
            Some(v) => {
                st.command = Some(v.clone());
            },
            None => {
                return Err(must_provide("-c"));
            },
        }
    } else if str_equal(arg, "-t") {
        st.test_mode = true;
    } else if str_equal(arg, "-q") {
        st.publish = false;
    } else if str_equal(arg, "-L") {
        match get_next(args, i) {
            Some(v) => {
                st.language = Some(to_lowercase(v.as_str()));
            },
            None => {
                return Err(must_provide("-L"));
            },
        }
    }
    Ok(())
}

impl WriteConfig {
    /// The settings of a submission by `user` before any argument is read:
    /// no command, no language, not published, not a test, challenge "2331".
    pub fn default(user: &str, settings: &Settings) -> (r: WriteConfig)
        requires
            default_challenge(*settings) is Some,
        ensures
            r.name@ == user@,
            r.command@.len() == 0,
            r.language@.len() == 0,
            !r.publish,
            !r.test_mode,
            entry(r.challenge) == default_challenge(*settings).unwrap(),
    {
        let challenges = Challenges::new();
        let challenge = match select_challenge(&challenges, "2331", settings) {
            Some(c) => c,
            None => challenges.challenges[0].duplicate(),
        };
        WriteConfig {
            name: String::from_str(user),
            command: String::new(),
            publish: false,
            test_mode: false,
            challenge,
            language: String::new(),
        }
    }

    /// Reads the settings of a submission by `user` from the arguments: the
    /// challenge (`-C`), the command (`-c`), the language (`-L`, lower-cased),
    /// test mode (`-t`), quiet mode (`-q`) and, for root only, the player name
    /// (`-n`).  Test mode never publishes; the command and the language must
    /// be given.
    pub fn from_args(args: &Vec<String>, user: &str, settings: &Settings) -> (r: Result<WriteConfig, ArgsError>)
        requires
            default_challenge(*settings) is Some,
        ensures
            match (r, write_config_of(arg_views(args@), user@, *settings)) {
                (Ok(c), Ok(st)) => write_config_is(c, st),
                (Err(a), Err(b)) => a@ == b,
                _ => false,
            },
    {
        let challenges = Challenges::new();
        let ghost av = arg_views(args@);
        let ghost init = WriteState {
            name: user@,
            command: None,
            publish: true,
            test_mode: false,
            challenge: default_challenge(*settings).unwrap(),
            language: None,
        };
        let challenge = match select_challenge(&challenges, "2331", settings) {
            Some(c) => c,
            None => {
                return Err(message("2331"));
            },
        };
        let mut st = WriteScan {
            name: String::from_str(user),
            command: None,
            publish: true,
            test_mode: false,
            challenge,
            language: None,
        };
        let mut i: usize = 0;
        while i < args.len()
            invariant
                0 <= i <= args@.len(),
                av == arg_views(args@),
                init == (WriteState {
                    name: user@,
                    command: None,
                    publish: true,
                    test_mode: false,
                    challenge: default_challenge(*settings).unwrap(),
                    language: None,
                }),
                challenges.challenges@.map_values(|c: Challenge| entry(c)) == catalogue(),
                forall|k: int| 0 <= k < challenges.challenges@.len() ==> (#[trigger] challenges.challenges@[k]).doc@.len() == 0,
                write_scan(av, i as int, init, user@, *settings) == Ok::<WriteState, ArgsErrorView>(scan_state(st)),
                st.challenge.doc@.len() == 0,
            decreases args@.len() - i,
        {
            let ghost before = scan_state(st);
            let r = write_arg(args, i, user, &challenges, settings, &mut st);
            if let Err(e) = r {
                proof {
                    assert(write_step(av, i as int, before, user@, *settings) == Err::<WriteState, ArgsErrorView>(e@));
                    assert(write_scan(av, i as int + 1, init, user@, *settings) == Err::<WriteState, ArgsErrorView>(e@));
                    lemma_write_scan_err(av, i as int + 1, av.len() as int, init, user@, *settings);
                }
                return Err(e);
            }
            i = i + 1;
        }
        let publish = st.publish && !st.test_mode;
        let command = match st.command {
            Some(c) => c,
            None => {
                return Err(message("-c must be provided"));
            },
        };
        let language = match st.language {
            Some(l) => l,
            None => {
                return Err(message("-L must be provided"));
            },
        };
        Ok(WriteConfig {
            name: st.name,
            command,
            publish,
            test_mode: st.test_mode,
            challenge: st.challenge,
            language,
        })
    }
}

/// Whether the arguments ask for help: `-h`, `--help`, `-?` or nothing.
pub open spec fn asks_help(args: Seq<Seq<char>>) -> bool {
    args.contains("-h"@) || args.contains("--help"@) || args.contains("-?"@) || args.len() == 0
}

/// Position of the first occurrence of `flag`.
pub open spec fn first_index(args: Seq<Seq<char>>, flag: Seq<char>) -> int {
    choose|i: int| 0 <= i < args.len() && args[i] == flag && forall|j: int| 0 <= j < i ==> args[j] != flag
}

/// Whether the arguments reach a submission or scoreboard configuration,
/// which starts from the default challenge.
pub open spec fn needs_default_challenge(args: Seq<Seq<char>>) -> bool {
    !asks_help(args) && !args.contains("--version"@) && !args.contains("--announcement"@)
        && (args.contains("-c"@) || args.contains("-p"@))
}

/// The mathematical content of an outcome of the command line.
pub enum OutcomeView {
    Help,
    Version,
    ListChallenges,
    ShowChallenge(ChallengeEntry),
    Update(WriteState),
    Read(ReadState),
    Wipe(Seq<char>),
    Announce(AnnouncementKind),
}

/// What the command line asks for, in order of precedence: help, version,
/// an announcement (`--announcement release|launch`), a submission (`-c`), a scoreboard read (`-p`), a challenge description
/// (`-C <code>`, `-C ?` for the list), wiping a table (`-w <table>`, root
/// only); anything else is no mode.
pub open spec fn outcome_of(args: Seq<Seq<char>>, user: Seq<char>, settings: Settings) -> Result<OutcomeView, ArgsErrorView> {
    if asks_help(args) {
        Ok(OutcomeView::Help)
    } else if args.contains("--version"@) {
        Ok(OutcomeView::Version)
    } else if args.contains("--announcement"@) {
        match next_arg(args, first_index(args, "--announcement"@)) {
            None => Err(ArgsErrorView::Message(needs_string("--announcement"@))),
            Some(w) => match announcement_kind(w) {
                Some(k) => Ok(OutcomeView::Announce(k)),
                None => Err(ArgsErrorView::Message("--announcement must be release or launch"@)),
            },
        }
    } else if args.contains("-c"@) {
        match write_config_of(args, user, settings) {
            Ok(st) => Ok(OutcomeView::Update(st)),
            Err(e) => Err(e),
        }
    } else if args.contains("-p"@) {
        match read_config_of(args, settings) {
            Ok(st) => Ok(OutcomeView::Read(st)),
            Err(e) => Err(e),
        }
    } else if args.contains("-C"@) {
        match next_arg(args, first_index(args, "-C"@)) {
            None => Err(ArgsErrorView::Message(needs_string("-C"@))),
            Some(c) => if c == "?"@ {
                Ok(OutcomeView::ListChallenges)
            } else {
                match selectable(settings, c) {
                    Some(e) => Ok(OutcomeView::ShowChallenge(e)),
                    None => Err(ArgsErrorView::UnknownChallenge(c)),
                }
            },
        }
    } else if args.contains("-w"@) {
        if user != "root"@ {
            Err(ArgsErrorView::Message("Not root"@))
        } else {
            match next_arg(args, first_index(args, "-w"@)) {
                None => Err(ArgsErrorView::Message("-w must provide a table name"@)),
                Some(t) => Ok(OutcomeView::Wipe(t)),
            }
        }
    } else {
        Err(ArgsErrorView::NoMode)
    }
}

/// An outcome holds the given mathematical outcome.
pub open spec fn outcome_is(o: ArgsOutcome, v: OutcomeView) -> bool {
    match (o, v) {
        (ArgsOutcome::Help, OutcomeView::Help) => true,
        (ArgsOutcome::Version, OutcomeView::Version) => true,
        (ArgsOutcome::ListChallenges, OutcomeView::ListChallenges) => true,
        (ArgsOutcome::ShowChallenge(c), OutcomeView::ShowChallenge(e)) => entry(c) == e && c.doc@.len() == 0,
        (ArgsOutcome::Mode(RunMode::Update(c)), OutcomeView::Update(st)) => write_config_is(c, st),
        (ArgsOutcome::Mode(RunMode::Read(c)), OutcomeView::Read(st)) => read_config_is(c, st),
        (ArgsOutcome::Mode(RunMode::Wipe(t)), OutcomeView::Wipe(w)) => t@ == w,
        (ArgsOutcome::Mode(RunMode::Announce(k)), OutcomeView::Announce(j)) => k == j,
        _ => false,
    }
}

impl RunMode {
    /// Works out from the arguments, for the user `user`, what the judge is
    /// asked to do.
    pub fn from_args(args: &Vec<String>, user: &str, settings: &Settings) -> (r: Result<ArgsOutcome, ArgsError>)
        requires
            needs_default_challenge(arg_views(args@)) ==> default_challenge(*settings) is Some,
        ensures
            match (r, outcome_of(arg_views(args@), user@, *settings)) {
                (Ok(o), Ok(v)) => outcome_is(o, v),
                (Err(a), Err(b)) => a@ == b,
                _ => false,
            },
    {
        let ghost av = arg_views(args@);
        if has_arg(args, "-h") || has_arg(args, "--help") || has_arg(args, "-?") || args.len() == 0 {
            return Ok(ArgsOutcome::Help);
        }
        assert(av.len() == args@.len());
        if has_arg(args, "--version") {
            return Ok(ArgsOutcome::Version);
        }
        if has_arg(args, "--announcement") {
            let index = position_of(args, "--announcement");
            assert(index == first_index(av, "--announcement"@));
            let w = match get_next(args, index) {
                Some(w) => w,
                None => {
                    return Err(must_provide("--announcement"));
                },
            };
            return if str_equal(w.as_str(), "release") {
                Ok(ArgsOutcome::Mode(RunMode::Announce(AnnouncementKind::Release)))
            } else if str_equal(w.as_str(), "launch") {
                Ok(ArgsOutcome::Mode(RunMode::Announce(AnnouncementKind::Launch)))
            } else {
                Err(message("--announcement must be release or launch"))
            };
        }
        if has_arg(args, "-c") {
            return match WriteConfig::from_args(args, user, settings) {
                Ok(c) => Ok(ArgsOutcome::Mode(RunMode::Update(c))),
                Err(e) => Err(e),
            };
        }
        if has_arg(args, "-p") {
            return match ReadConfig::from_args(args, settings) {
                Ok(c) => Ok(ArgsOutcome::Mode(RunMode::Read(c))),
                Err(e) => Err(e),
            };
        }
        if has_arg(args, "-C") {
            let index = position_of(args, "-C");
            assert(index == first_index(av, "-C"@));
            let c = match get_next(args, index) {
                Some(c) => c,
                None => {
                    return Err(must_provide("-C"));
                },
            };
            if str_equal(c.as_str(), "?") {
                return Ok(ArgsOutcome::ListChallenges);
            }
            let challenges = Challenges::new();
            return match select_challenge(&challenges, c.as_str(), settings) {
                Some(ch) => Ok(ArgsOutcome::ShowChallenge(ch)),
                None => Err(ArgsError::UnknownChallenge(c.clone())),
            };
        }
        if has_arg(args, "-w") {
            if !str_equal(user, "root") {
                return Err(message("Not root"));
            }
            let index = position_of(args, "-w");
            assert(index == first_index(av, "-w"@));
            return match get_next(args, index) {
                Some(t) => Ok(ArgsOutcome::Mode(RunMode::Wipe(t.clone()))),
                None => Err(message("-w must provide a table name")),
            };
        }
        Err(ArgsError::NoMode)
    }
}

/// Law: a configuration in test mode is never published.
pub proof fn law_test_mode_never_publishes(args: Seq<Seq<char>>, user: Seq<char>, settings: Settings)
    ensures
        write_config_of(args, user, settings) matches Ok(st) ==> (st.test_mode ==> !st.publish),
{
}

/// Law: the scoreboard filters are kept in the order in which they are
/// given; a flag earlier on the command line yields an earlier filter.
pub proof fn law_filters_in_order(args: Seq<Seq<char>>, n: int, init: ReadState, settings: Settings)
    requires
        0 <= n,
    ensures
        read_scan(args, n, init, settings) matches Ok(st) ==> (
            st.filters.len() >= init.filters.len()
            && st.filters.subrange(0, init.filters.len() as int) == init.filters),
    decreases n,
{
    if n > 0 {
        law_filters_in_order(args, n - 1, init, settings);
        if let Ok(prev) = read_scan(args, n - 1, init, settings) {
            if let Ok(st) = read_step(args, n - 1, prev, settings) {
                assert(st.filters.len() >= prev.filters.len());
                assert(st.filters.subrange(0, prev.filters.len() as int) =~= prev.filters);
                assert(st.filters.subrange(0, init.filters.len() as int) =~= prev.filters.subrange(0, init.filters.len() as int));
            }
        }
    }
}

} // verus!
