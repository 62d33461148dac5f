//! Announcements posted to the team channel: adaptive cards, the message that
//! carries them, and what each kind of announcement shows.
use vstd::prelude::*;
use crate::score::{Score, score_views, unique_players, names_of};
use crate::challenges::{Challenge, listing};
use crate::config::AnnouncementKind;
use crate::text::{push_decimal, decimal};

verus! {

/// Text colours of a card.
#[derive(Debug, Clone, Copy, PartialEq, Eq, Structural)]
pub enum Colour {
    Default,
    Dark,
    Light,
    Accent,
    Good,
    Warning,
    Attention,
}

/// Font families of a card.
#[derive(Debug, Clone, Copy, PartialEq, Eq, Structural)]
pub enum FontType {
    Default,
    Monospace,
}

/// Font sizes of a card.
#[derive(Debug, Clone, Copy, PartialEq, Eq, Structural)]
pub enum FontSize {
    Default,
    Small,
    Medium,
    Large,
    ExtraLarge,
}

/// Font weights of a card.
#[derive(Debug, Clone, Copy, PartialEq, Eq, Structural)]
pub enum FontWeight {
    Default,
    Lighter,
    Bolder,
}

impl Default for Colour {
    fn default() -> (r: Colour)
        ensures
            r == Colour::Default,
    {
        Colour::Default
    }
}

impl Default for FontType {
    fn default() -> (r: FontType)
        ensures
            r == FontType::Default,
    {
        FontType::Default
    }
}

impl Default for FontSize {
    fn default() -> (r: FontSize)
        ensures
            r == FontSize::Default,
    {
        FontSize::Default
    }
}

impl Default for FontWeight {
    fn default() -> (r: FontWeight)
        ensures
            r == FontWeight::Default,
    {
        FontWeight::Default
    }
}

/// One element of a card's body.
#[derive(Debug, Clone)]
pub enum CardElement {
    TextBlock {
        text: String,
        color: Option<Colour>,
        size: Option<FontSize>,
        weight: Option<FontWeight>,
        wrap: bool,
        is_subtle: Option<bool>,
        max_lines: Option<String>,
        font_type: Option<FontType>,
    },
    Image {
        url: String,
        size: String,
        style: String,
    },
}

/// The look of a text block: colour, size, weight, wrapping, subtlety and
/// font (a maximum number of lines is never set here).
pub struct TextStyle {
    pub color: Option<Colour>,
    pub size: Option<FontSize>,
    pub weight: Option<FontWeight>,
    pub wrap: bool,
    pub is_subtle: Option<bool>,
    pub font_type: Option<FontType>,
}

/// The mathematical content of a card element.
pub enum CardElementView {
    TextBlock { text: Seq<char>, style: TextStyle, max_lines: Option<Seq<char>> },
    Image { url: Seq<char>, size: Seq<char>, style: Seq<char> },
}

impl View for CardElement {
    type V = CardElementView;

    open spec fn view(&self) -> CardElementView {
        match self {
            CardElement::TextBlock { text, color, size, weight, wrap, is_subtle, max_lines, font_type } =>
                CardElementView::TextBlock {
                    text: text@,
                    style: TextStyle {
                        color: *color,
                        size: *size,
                        weight: *weight,
                        wrap: *wrap,
                        is_subtle: *is_subtle,
                        font_type: *font_type,
                    },
                    max_lines: match max_lines { Some(m) => Some(m@), None => None },
                },
            CardElement::Image { url, size, style } =>
                CardElementView::Image { url: url@, size: size@, style: style@ },
        }
    }
}

/// The style of a plain text block: wrapped, everything else unset.
pub open spec fn text_style() -> TextStyle {
    TextStyle { color: None, size: None, weight: None, wrap: true, is_subtle: None, font_type: None }
}

/// The style of a heading: large and bold, wrapped.
pub open spec fn heading_style() -> TextStyle {
    TextStyle { color: None, size: Some(FontSize::Large), weight: Some(FontWeight::Bolder), wrap: true, is_subtle: None, font_type: None }
}

/// A text block with the given text and style.
pub open spec fn block(text: Seq<char>, style: TextStyle) -> CardElementView {
    CardElementView::TextBlock { text, style, max_lines: None }
}

impl CardElement {
    /// A plain, wrapped text block.
    pub fn text_block(text: &str) -> (r: CardElement)
        ensures
            r@ == block(text@, text_style()),
    {
        CardElement::TextBlock {
            text: String::from_str(text),
            color: None,
            size: None,
            weight: None,
            wrap: true,
            is_subtle: None,
            max_lines: None,
            font_type: None,
        }
    }

    /// A large, bold heading block.
    pub fn heading_block(text: &str) -> (r: CardElement)
        ensures
            r@ == block(text@, heading_style()),
    {
        CardElement::TextBlock {
            text: String::from_str(text),
            color: None,
            size: Some(FontSize::Large),
            weight: Some(FontWeight::Bolder),
            wrap: true,
            is_subtle: None,
            max_lines: None,
            font_type: None,
        }
    }

    /// The placeholder element: "This is some text" in the default look.
    pub fn default() -> (r: CardElement)
        ensures
            r@ == block("This is some text"@, TextStyle {
                color: Some(Colour::Default),
                size: Some(FontSize::Default),
                weight: Some(FontWeight::Default),
                wrap: true,
                is_subtle: None,
                font_type: Some(FontType::Default),
            }),
    {
        CardElement::TextBlock {
            text: String::from_str("This is some text"),
            color: Some(Colour::Default),
            size: Some(FontSize::Default),
            weight: Some(FontWeight::Default),
            wrap: true,
            is_subtle: None,
            max_lines: None,
            font_type: Some(FontType::Default),
        }
    }
}

/// An adaptive card.
#[derive(Debug, Clone)]
pub struct AdaptiveCard {
    pub card_type: String,
    pub body: Vec<CardElement>,
    pub schema: String,
    pub version: String,
}

/// The contents of a card body.
pub open spec fn body_views(body: Seq<CardElement>) -> Seq<CardElementView> {
    body.map_values(|e: CardElement| e@)
}

/// The card type, schema and version of every card here.
pub open spec fn standard_frame(card: AdaptiveCard) -> bool {
    &&& card.card_type@ == "AdaptiveCard"@
    &&& card.schema@ == "http://adaptivecards.io/schemas/adaptive-card.json"@
    &&& card.version@ == "1.6"@
}

fn card_with(body: Vec<CardElement>) -> (r: AdaptiveCard)
    ensures
        standard_frame(r),
        r.body@ == body@,
{
    AdaptiveCard {
        card_type: String::from_str("AdaptiveCard"),
        body,
        schema: String::from_str("http://adaptivecards.io/schemas/adaptive-card.json"),
        version: String::from_str("1.6"),
    }
}

/// Lines numbered from 1: `1. <first>\n2. <second>\n...`, for the first `n`
/// lines.
pub open spec fn numbered(lines: Seq<Seq<char>>, n: int) -> Seq<char>
    decreases n,
{
    if n <= 0 {
        seq![]
    } else {
        numbered(lines, n - 1) + decimal(n as nat) + ". "@ + lines[n - 1] + "\n"@
    }
}

/// The contents of a list of strings.
pub open spec fn line_views(v: Seq<String>) -> Seq<Seq<char>> {
    v.map_values(|s: String| s@)
}

fn numbered_lines(lines: &Vec<String>) -> (r: String)
    ensures
        r@ == numbered(line_views(lines@), lines@.len() as int),
{
    let ghost lv = line_views(lines@);
    let mut s = String::new();
    let mut i: usize = 0;
    while i < lines.len()
        invariant
            0 <= i <= lines@.len(),
            lv == line_views(lines@),
            s@ == numbered(lv, i as int),
        decreases lines@.len() - i,
    {
        push_decimal(&mut s, (i as u64) + 1);
        s.append(". ");
        s.append(lines[i].as_str());
        s.append("\n");
        assert(lv[i as int] == lines@[i as int]@);
        assert(s@ =~= numbered(lv, i as int + 1));
        i = i + 1;
    }
    s
}

fn contains_name(seen: &Vec<String>, name: &String) -> (r: bool)
    ensures
        r == seen@.map_values(|x: String| x@).contains(name@),
{
    let ghost names = seen@.map_values(|x: String| x@);
    let mut i: usize = 0;
    while i < seen.len()
        invariant
            0 <= i <= seen.len(),
            names == seen@.map_values(|x: String| x@),
            forall|j: int| 0 <= j < i ==> names[j] != name@,
        decreases seen.len() - i,
    {
        if seen[i] == *name {
            assert(names[i as int] == name@);
            return true;
        }
        i = i + 1;
    }
    false
}

impl AdaptiveCard {
    /// Keeps the first score of each player, in order, and at most `limit` of
    /// them (all of them when no limit is given); a limit of zero keeps the
    /// first score, as the limit is checked after each kept score.
    pub fn filter_unique_players(input: &Vec<Score>, limit: Option<usize>) -> (r: Vec<Score>)
        ensures
            score_views(r@) == unique_players(
                score_views(input@),
                match limit { Some(l) => l as nat, None => input@.len() },
            ),
    {
        let limit = match limit {
            Some(l) => l,
            None => input.len(),
        };
        let ghost lim = limit as nat;
        let ghost views = score_views(input@);
        let mut scores: Vec<Score> = Vec::new();
        let mut seen: Vec<String> = Vec::new();
        let mut i: usize = 0;
        while i < input.len()
            invariant
                0 <= i <= input.len(),
                views == score_views(input@),
                lim == limit as nat,
                score_views(scores@) == unique_players(views.subrange(0, i as int), lim),
                seen@.map_values(|x: String| x@) == names_of(score_views(scores@)),
            decreases input.len() - i,
        {
            let ghost prefix = views.subrange(0, i as int + 1);
            assert(prefix.drop_last() =~= views.subrange(0, i as int));
            assert(prefix.last() == input@[i as int]@);
            let score = &input[i];
            let ghost before = score_views(scores@);
            let ghost seen_before = seen@;
            assert(before.len() == scores@.len());
            assert(prefix.last() == score@);
            if scores.len() >= limit && scores.len() > 0 {
                // nothing more is kept once the limit is reached
            } else {
                let known = contains_name(&seen, &score.name);
                assert(known == names_of(before).contains(score@.name));
                if !known {
                    let name_copy = score.name.clone();
                    seen.push(name_copy);
                    scores.push(score.duplicate());
                    assert(score_views(scores@) =~= before.push(score@));
                    assert(seen@ =~= seen_before.push(name_copy));
                    assert(seen@.map_values(|x: String| x@) =~= seen_before.map_values(|x: String| x@).push(name_copy@));
                    assert(names_of(before.push(score@)) =~= names_of(before).push(score@.name));
                }
            }
            i = i + 1;
        }
        assert(views.subrange(0, input@.len() as int) =~= views);
        scores
    }
}

/// What an announcement is about.
#[derive(Debug)]
pub enum PublishType {
    /// A new score for a challenge, with the leaderboard.
    NewScore((String, Score, Vec<Score>)),
    /// A copied submission, with the leaderboard.
    CopyCard { challenge: String, thief: String, victim: String, scores: Vec<Score> },
    /// A heading and a text.
    Announcement((String, String)),
    /// The spot prize of a challenge goes to a score.
    Prize((String, Score)),
    /// A plain message.
    Message(String),
}

/// How scores read in an announcement: the line of the announced score and
/// one line per leaderboard score.  Score lines show running times in a
/// human unit, which is done where the scores come from.
pub struct ScoreLines {
    pub score: String,
    pub board: Vec<String>,
}

/// The texts of the blocks of the card for an announcement, each marked as
/// heading or not.
pub open spec fn card_blocks(p: PublishType, lines: ScoreLines) -> Seq<CardElementView> {
    match p {
        PublishType::Message(msg) => seq![block(msg@, text_style())],
        PublishType::NewScore((challenge, _score, _scores)) => seq![
            block("New attempt at "@ + challenge@ + "!"@, heading_style()),
            block(lines.score@, text_style()),
            block("Leaderboard"@, text_style()),
            block(numbered(line_views(lines.board@), lines.board@.len() as int), text_style()),
        ],
        PublishType::Announcement((heading, msg)) => seq![
            block(heading@, heading_style()),
            block(msg@, text_style()),
        ],
        PublishType::Prize((challenge, score)) => seq![
            block(score.name@ + " claims the spot prize for "@ + challenge@ + "!"@, heading_style()),
            block("For the first submission using "@ + score.language@
                + ". To claim your prize, reply here with your code"@, text_style()),
        ],
        PublishType::CopyCard { challenge, thief, victim, scores: _ } => seq![
            block("Old attempt at "@ + challenge@ + "!"@, heading_style()),
            block(thief@ + ", tried to submit code already submitted by "@ + victim@
                + ". The leaderboard remains the same..."@, text_style()),
            block("Leaderboard"@, text_style()),
            block(numbered(line_views(lines.board@), lines.board@.len() as int), text_style()),
        ],
    }
}

fn concat3(a: &str, b: &str, c: &str) -> (r: String)
    ensures
        r@ == a@ + b@ + c@,
{
    let mut s = String::from_str(a);
    s.append(b);
    s.append(c);
    s
}

impl AdaptiveCard {
    /// The default card: one placeholder element.
    pub fn default() -> (r: AdaptiveCard)
        ensures
            standard_frame(r),
            body_views(r.body@) == seq![CardElement::default_view()],
    {
        let mut body: Vec<CardElement> = Vec::new();
        let e = CardElement::default();
        let ghost ev = e@;
        body.push(e);
        assert(body_views(body@) =~= seq![ev]);
        card_with(body)
    }

    /// The card sent to check the channel: the default card.
    pub fn test_card() -> (r: AdaptiveCard)
        ensures
            standard_frame(r),
            body_views(r.body@) == seq![CardElement::default_view()],
    {
        Self::default()
    }

    /// The card of an announcement, with the score lines as `lines` shows
    /// them.
    pub fn from_publish(publish: &PublishType, lines: &ScoreLines) -> (r: AdaptiveCard)
        ensures
            standard_frame(r),
            body_views(r.body@) == card_blocks(*publish, *lines),
    {
        let mut body: Vec<CardElement> = Vec::new();
        match publish {
            PublishType::Message(msg) => {
                body.push(CardElement::text_block(msg.as_str()));
            },
            PublishType::NewScore((challenge, _score, _scores)) => {
                let heading = concat3("New attempt at ", challenge.as_str(), "!");
                body.push(CardElement::heading_block(heading.as_str()));
                body.push(CardElement::text_block(lines.score.as_str()));
                body.push(CardElement::text_block("Leaderboard"));
                let board = numbered_lines(&lines.board);
                body.push(CardElement::text_block(board.as_str()));
            },
            PublishType::Announcement((heading, msg)) => {
                body.push(CardElement::heading_block(heading.as_str()));
                body.push(CardElement::text_block(msg.as_str()));
            },
            PublishType::Prize((challenge, score)) => {
                let mut heading = String::from_str(score.name.as_str());
                heading.append(" claims the spot prize for ");
                heading.append(challenge.as_str());
                heading.append("!");
                body.push(CardElement::heading_block(heading.as_str()));
                let sub = concat3("For the first submission using ", score.language.as_str(),
                    ". To claim your prize, reply here with your code");
                body.push(CardElement::text_block(sub.as_str()));
            },
            PublishType::CopyCard { challenge, thief, victim, scores: _ } => {
                let heading = concat3("Old attempt at ", challenge.as_str(), "!");
                body.push(CardElement::heading_block(heading.as_str()));
                let mut sub = concat3(thief.as_str(), ", tried to submit code already submitted by ", victim.as_str());
                sub.append(". The leaderboard remains the same...");
                body.push(CardElement::text_block(sub.as_str()));
                body.push(CardElement::text_block("Leaderboard"));
                let board = numbered_lines(&lines.board);
                body.push(CardElement::text_block(board.as_str()));
            },
        }
        assert(body_views(body@) =~= card_blocks(*publish, *lines));
        card_with(body)
    }
}

impl CardElement {
    /// The placeholder element's content.
    pub open spec fn default_view() -> CardElementView {
        block("This is some text"@, TextStyle {
            color: Some(Colour::Default),
            size: Some(FontSize::Default),
            weight: Some(FontWeight::Default),
            wrap: true,
            is_subtle: None,
            font_type: Some(FontType::Default),
        })
    }
}

/// The attachment that carries a card.
#[derive(Debug, Clone)]
pub struct Content {
    pub content_type: String,
    pub content: AdaptiveCard,
}

/// A message to the team channel.
#[derive(Debug, Clone)]
pub struct Message {
    pub message_type: String,
    pub attachments: Vec<Content>,
}

impl Message {
    /// The message that carries a card: of type "message", with the card as
    /// its only attachment, of adaptive-card content type.
    pub fn from_card(card: AdaptiveCard) -> (r: Message)
        ensures
            r.message_type@ == "message"@,
            r.attachments@.len() == 1,
            r.attachments@[0].content_type@ == "application/vnd.microsoft.card.adaptive"@,
            r.attachments@[0].content == card,
    {
        let mut attachments: Vec<Content> = Vec::new();
        attachments.push(Content {
            content_type: String::from_str("application/vnd.microsoft.card.adaptive"),
            content: card,
        });
        Message { message_type: String::from_str("message"), attachments }
    }
}

/// The heading and text of an announcement: a release names the version of
/// the judge; a launch lists the open challenges, one `<command> - <name>`
/// line each.
pub open spec fn announcement_text(kind: AnnouncementKind, version: Seq<char>, open: Seq<Challenge>) -> (Seq<char>, Seq<char>) {
    match kind {
        AnnouncementKind::Release => ("New release!"@, "Version "@ + version + " of the judge is out."@),
        AnnouncementKind::Launch => ("A new challenge is open!"@, "Open challenges:\n"@ + listing(open)),
    }
}

impl PublishType {
    /// The announcement of the given kind, for the judge at `version` and the
    /// challenges that are open.
    pub fn announcement(kind: AnnouncementKind, version: &str, open: &Vec<&Challenge>) -> (r: PublishType)
        ensures
            match r {
                PublishType::Announcement((heading, msg)) =>
                    (heading@, msg@) == announcement_text(kind, version@, open@.map_values(|c: &Challenge| *c)),
                _ => false,
            },
    {
        match kind {
            AnnouncementKind::Release => PublishType::Announcement((
                String::from_str("New release!"),
                concat3("Version ", version, " of the judge is out."),
            )),
            AnnouncementKind::Launch => {
                let ghost cs = open@.map_values(|c: &Challenge| *c);
                let mut msg = String::from_str("Open challenges:\n");
                let mut i: usize = 0;
                while i < open.len()
                    invariant
                        0 <= i <= open@.len(),
                        cs == open@.map_values(|c: &Challenge| *c),
                        msg@ == "Open challenges:\n"@ + listing(cs.subrange(0, i as int)),
                    decreases open@.len() - i,
                {
                    let ghost prefix = cs.subrange(0, i as int + 1);
                    assert(prefix.drop_last() =~= cs.subrange(0, i as int));
                    let c: &Challenge = open[i];
                    msg.append(c.command.as_str());
                    msg.append(" - ");
                    msg.append(c.name.as_str());
                    msg.append("\n");
                    assert(msg@ =~= "Open challenges:\n"@ + listing(prefix));
                    i = i + 1;
                }
                assert(cs.subrange(0, open@.len() as int) =~= cs);
                PublishType::Announcement((String::from_str("A new challenge is open!"), msg))
            },
        }
    }

    /// The JSON text of a plain message: `{"text": "<message>"}` (the message
    /// is not escaped).
    pub fn to_display_string(&self) -> (r: String)
        requires
            self is Message,
        ensures
            match self {
                PublishType::Message(msg) => r@ == "{\"text\": \""@ + msg@ + "\"}"@,
                _ => false,
            },
    {
        match self {
            PublishType::Message(msg) => concat3("{\"text\": \"", msg.as_str(), "\"}"),
            _ => String::new(),
        }
    }
}

/// Why the announcer cannot be made.
#[derive(Debug, Clone, Copy, PartialEq, Eq, Structural)]
pub enum PublishError {
    /// No webhook address was configured at build time.
    NoWebhook,
}

impl PublishError {
    /// The error message.
    pub fn message(&self) -> (r: String)
        ensures
            r@ == "This program needs to be compiled with the $WEBHOOK env variable set"@,
    {
        String::from_str("This program needs to be compiled with the $WEBHOOK env variable set")
    }
}

/// Posts announcements to a webhook.
#[derive(Debug, Clone)]
pub struct Publisher {
    pub webhook: String,
}

impl Publisher {
    /// An announcer for the webhook address configured at build time, if any.
    pub fn new(webhook: Option<&str>) -> (r: Result<Publisher, PublishError>)
        ensures
            match webhook {
                Some(w) => r matches Ok(p) && p.webhook@ == w@,
                None => r == Err::<Publisher, PublishError>(PublishError::NoWebhook),
            },
    {
        match webhook {
            Some(w) => Ok(Publisher { webhook: String::from_str(w) }),
            None => Err(PublishError::NoWebhook),
        }
    }

    /// The message sent to check the channel: the test card.
    pub fn test_message(&self) -> (r: Message)
        ensures
            r.message_type@ == "message"@,
            r.attachments@.len() == 1,
            r.attachments@[0].content_type@ == "application/vnd.microsoft.card.adaptive"@,
            standard_frame(r.attachments@[0].content),
            body_views(r.attachments@[0].content.body@) == seq![CardElement::default_view()],
    {
        Message::from_card(AdaptiveCard::test_card())
    }
}

} // verus!
