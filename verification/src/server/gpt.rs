//! The history and examples the file-backed server shows the language
//! model, and the request it sends.
use crate::common::{CommentData, Database, DatabaseStyle, LikedState, WallpaperData};
use crate::history::{line_view, newest_first, newest_texts, TimedLine};
use crate::sorting::{sort_texts, texts_ascending};
use crate::text::{cat, join, join_with, views};
use vstd::prelude::*;

verus! {

/// The most history lines shown.
pub const HISTORY_LIMIT: usize = 50;

/// How a rating is marked in the history.
pub open spec fn history_mark(state: LikedState) -> Seq<char> {
    match state {
        LikedState::Loved => " [LOVED]"@,
        LikedState::Liked => " [liked]"@,
        LikedState::Disliked => " [disliked]"@,
        LikedState::Neutral => Seq::empty(),
    }
}

/// The history line of a wallpaper.
pub open spec fn wallpaper_line(w: WallpaperData) -> Seq<char> {
    "• "@ + w.prompt_data.shortened_prompt@ + history_mark(w.liked_state)
}

/// Each history line of a wallpaper carries the mark of its rating after
/// the short prompt: " [LOVED]", " [liked]", " [disliked]", or nothing for an
/// unrated one; and no two ratings share a mark.
pub proof fn lemma_history_marks(w: WallpaperData, a: LikedState, b: LikedState)
    ensures
        ({
            let lead = "• "@ + w.prompt_data.shortened_prompt@;
            &&& w.liked_state == LikedState::Loved ==> wallpaper_line(w) == lead + " [LOVED]"@
            &&& w.liked_state == LikedState::Liked ==> wallpaper_line(w) == lead + " [liked]"@
            &&& w.liked_state == LikedState::Disliked ==> wallpaper_line(w) == lead
                + " [disliked]"@
            &&& w.liked_state == LikedState::Neutral ==> wallpaper_line(w) == lead
        }),
        history_mark(a) == history_mark(b) ==> a == b,
{
    reveal_strlit(" [LOVED]");
    reveal_strlit(" [liked]");
    reveal_strlit(" [disliked]");
    let loved = " [LOVED]"@;
    let liked = " [liked]"@;
    let disliked = " [disliked]"@;
    assert(loved != liked) by {
        assert(loved[2] != liked[2]);
    }
    assert(loved.len() != disliked.len());
    assert(liked.len() != disliked.len());
    assert(loved.len() != 0 && liked.len() != 0 && disliked.len() != 0);
    if w.liked_state == LikedState::Neutral {
        assert(wallpaper_line(w) =~= "• "@ + w.prompt_data.shortened_prompt@);
    }
}

/// The history line of a comment.
pub open spec fn comment_line(c: CommentData) -> Seq<char> {
    "• [user comment] "@ + c.comment@
}

/// The time and line of each wallpaper and then each comment.
pub open spec fn timeline(db: Database) -> Seq<(int, Seq<char>)> {
    db.wallpapers@.map_values(|w: WallpaperData| (w.datetime as int, wallpaper_line(w)))
        + db.comments@.map_values(|c: CommentData| (c.datetime as int, comment_line(c)))
}

/// The newest `HISTORY_LIMIT` lines of the timeline, newest first; of lines
/// with equal times, the later one in the timeline counts as newer.
pub open spec fn recent_lines(db: Database) -> Seq<Seq<char>> {
    newest_texts(timeline(db), HISTORY_LIMIT as int)
}

/// The example line of a loved or liked wallpaper.
pub open spec fn example_line(w: WallpaperData) -> Seq<char> {
    "• "@ + w.prompt_data.shortened_prompt@ + if w.liked_state == LikedState::Loved {
        " [LOVED]"@
    } else {
        " [liked]"@
    }
}

/// The example lines of the loved and liked wallpapers, in their order.
pub open spec fn example_lines(s: Seq<WallpaperData>) -> Seq<Seq<char>>
    decreases s.len(),
{
    if s.len() == 0 {
        Seq::empty()
    } else if s.last().liked_state == LikedState::Loved || s.last().liked_state
        == LikedState::Liked {
        example_lines(s.drop_last()).push(example_line(s.last()))
    } else {
        example_lines(s.drop_last())
    }
}

fn history_mark_text(state: LikedState) -> (mark: &'static str)
    ensures
        mark@ == history_mark(state),
{
    match state {
        LikedState::Loved => " [LOVED]",
        LikedState::Liked => " [liked]",
        LikedState::Disliked => " [disliked]",
        LikedState::Neutral => {
            proof {
                reveal_strlit("");
            }
            ""
        },
    }
}

/// A copy of the style texts.
pub fn copy_style(style: &DatabaseStyle) -> (res: DatabaseStyle)
    ensures
        res.texts() == style.texts(),
{
    DatabaseStyle {
        style: style.style.clone(),
        contents: style.contents.clone(),
        negative_contents: style.negative_contents.clone(),
    }
}

/// The context the language model gets: the newest history lines, newest
/// first, joined by newlines; the example lines of the loved and liked
/// wallpapers in dictionary order, joined by newlines; and the style texts.
pub fn generate_prompt(db: &Database) -> (res: (String, String, DatabaseStyle))
    ensures
        res.0@ == join_with(recent_lines(*db), "\n"@),
        exists|examples: Seq<String>|
            {
                &&& texts_ascending(examples)
                &&& views(examples).to_multiset() == example_lines(db.wallpapers@).to_multiset()
                &&& res.1@ == join_with(views(examples), "\n"@)
            },
        res.2.texts() == db.style.texts(),
{
    let ghost lv = |l: TimedLine| line_view(l);
    let mut entries: Vec<TimedLine> = Vec::new();
    let mut examples: Vec<String> = Vec::new();
    let nw = db.wallpapers.len();
    let mut i: usize = 0;
    while i < nw
        invariant
            nw == db.wallpapers@.len(),
            i <= nw,
            entries@.map_values(lv) == db.wallpapers@.take(i as int).map_values(
                |w: WallpaperData| (w.datetime as int, wallpaper_line(w)),
            ),
            views(examples@) == example_lines(db.wallpapers@.take(i as int)),
            lv == (|l: TimedLine| line_view(l)),
        decreases nw - i,
    {
        let w = &db.wallpapers[i];
        let mut text = cat("• ", w.prompt_data.shortened_prompt.as_str());
        text.append(history_mark_text(w.liked_state));
        let ghost before = entries@;
        entries.push(TimedLine { time: w.datetime, text });
        proof {
            let t = db.wallpapers@.take(i + 1);
            assert(t.drop_last() =~= db.wallpapers@.take(i as int));
            assert(entries@.map_values(lv) =~= before.map_values(lv).push(
                (w.datetime as int, wallpaper_line(*w)),
            ));
            assert(t.map_values(|w: WallpaperData| (w.datetime as int, wallpaper_line(w)))
                =~= db.wallpapers@.take(i as int).map_values(
                |w: WallpaperData| (w.datetime as int, wallpaper_line(w)),
            ).push((w.datetime as int, wallpaper_line(*w))));
        }
        if w.liked_state == LikedState::Loved || w.liked_state == LikedState::Liked {
            let mut line = cat("• ", w.prompt_data.shortened_prompt.as_str());
            if w.liked_state == LikedState::Loved {
                line.append(" [LOVED]");
            } else {
                line.append(" [liked]");
            }
            let ghost prev = examples@;
            examples.push(line);
            assert(views(examples@) =~= views(prev).push(example_line(*w)));
        }
        i = i + 1;
    }
    assert(db.wallpapers@.take(nw as int) =~= db.wallpapers@);
    let ghost wallpaper_part = entries@;
    let nc = db.comments.len();
    let mut j: usize = 0;
    while j < nc
        invariant
            nc == db.comments@.len(),
            j <= nc,
            entries@.map_values(lv) == db.wallpapers@.map_values(
                |w: WallpaperData| (w.datetime as int, wallpaper_line(w)),
            ) + db.comments@.take(j as int).map_values(
                |c: CommentData| (c.datetime as int, comment_line(c)),
            ),
            lv == (|l: TimedLine| line_view(l)),
        decreases nc - j,
    {
        let c = &db.comments[j];
        let text = cat("• [user comment] ", c.comment.as_str());
        let ghost before = entries@;
        entries.push(TimedLine { time: c.datetime, text });
        proof {
            let t = db.comments@.take(j + 1);
            assert(t =~= db.comments@.take(j as int).push(*c));
            assert(entries@.map_values(lv) =~= before.map_values(lv).push(
                (c.datetime as int, comment_line(*c)),
            ));
            assert(t.map_values(|c: CommentData| (c.datetime as int, comment_line(c)))
                =~= db.comments@.take(j as int).map_values(
                |c: CommentData| (c.datetime as int, comment_line(c)),
            ).push((c.datetime as int, comment_line(*c))));
        }
        j = j + 1;
    }
    assert(db.comments@.take(nc as int) =~= db.comments@);
    assert(entries@.map_values(lv) == timeline(*db));
    let recent = newest_first(entries, HISTORY_LIMIT);
    let recent_text = join(&recent, "\n");
    let ghost unsorted_examples = examples@;
    let sorted_examples = sort_texts(examples);
    let liked_text = join(&sorted_examples, "\n");
    (recent_text, liked_text, copy_style(&db.style))
}

/// The opening instructions, the texts around the style texts.
pub const INSTRUCTIONS_OPENING: &'static str = "You are a creative wallpaper image prompt generator. \
    Write a vivid, detailed prompt for a desktop wallpaper in a few sentences, no newlines.\n\
    \n\
    Style direction: '";

pub const INSTRUCTIONS_AFTER_STYLE: &'static str = "' — weave this naturally into every prompt.\n\
    Content categories (inspiration only, not exhaustive): '";

pub const INSTRUCTIONS_AFTER_CONTENTS: &'static str = "'.\n\
    Never include: '";

pub const INSTRUCTIONS_CLOSING: &'static str = "'.\n\
    \n\
    To keep every wallpaper feeling completely fresh, aim for a design utterly unique to anything seen recently.";

/// The heading of the history section.
pub const HISTORY_HEADING: &'static str = "RECENT HISTORY (newest first) — the subject, setting, and mood of each must NOT be repeated:\n";

/// The heading of the examples section.
pub const EXAMPLES_HEADING: &'static str = "QUALITY REFERENCE — the user loved/liked these. \
    Aim for this level of quality and evocativeness, but choose a completely different subject and setting:\n";

/// The request the user side of the conversation makes.
pub const USER_REQUEST: &'static str = "Generate a wallpaper prompt with a subject, setting, and mood that does not appear in the recent history above.";

/// What goes before a user's own wish.
pub const USER_NOTE_LEAD: &'static str = "\n\nUser request (prioritise this above all else): ";

/// The system texts and the user text of a prompt request.
#[derive(Clone, Debug)]
pub struct PromptRequest {
    pub context: Vec<String>,
    pub message: String,
}

/// The opening instructions with the style texts, newlines turned into
/// spaces, woven in.
pub open spec fn instructions(style: (Seq<char>, Seq<char>, Seq<char>)) -> Seq<char> {
    INSTRUCTIONS_OPENING@ + crate::text::newlines_to_spaces(style.0) + INSTRUCTIONS_AFTER_STYLE@
        + crate::text::newlines_to_spaces(style.1) + INSTRUCTIONS_AFTER_CONTENTS@
        + crate::text::newlines_to_spaces(style.2) + INSTRUCTIONS_CLOSING@
}

/// The user's own wish, when there is one, set off after the request.
pub open spec fn user_note(message: Option<Seq<char>>) -> Seq<char> {
    match message {
        Some(m) => USER_NOTE_LEAD@ + m,
        None => Seq::empty(),
    }
}

/// The system texts of a request: the instructions, the history, and the
/// examples when there are any.
pub open spec fn request_context(
    style: (Seq<char>, Seq<char>, Seq<char>),
    history: Seq<char>,
    examples: Seq<char>,
) -> Seq<Seq<char>> {
    let base = seq![instructions(style), HISTORY_HEADING@ + history];
    if examples.len() == 0 {
        base
    } else {
        base.push(EXAMPLES_HEADING@ + examples)
    }
}

/// The view of an optional text.
pub open spec fn opt_view(s: Option<String>) -> Option<Seq<char>> {
    match s {
        Some(t) => Some(t@),
        None => None,
    }
}

/// The request the language model is sent for a new prompt: the system
/// texts built from the style, history and examples of `generate_prompt`,
/// and the user text with the user's own wish, if any.
pub fn generate_request(db: &Database, message: Option<String>) -> (req: PromptRequest)
    ensures
        exists|history: Seq<char>, examples: Seq<char>|
            {
                &&& history == join_with(recent_lines(*db), "\n"@)
                &&& exists|lines: Seq<String>|
                    {
                        &&& texts_ascending(lines)
                        &&& views(lines).to_multiset() == example_lines(
                            db.wallpapers@,
                        ).to_multiset()
                        &&& examples == join_with(views(lines), "\n"@)
                    }
                &&& views(req.context@) == request_context(db.style.texts(), history, examples)
            },
        req.message@ == USER_REQUEST@ + user_note(opt_view(message)),
{
    let (history, examples, style) = generate_prompt(db);
    let mut first = String::from_str(INSTRUCTIONS_OPENING);
    first.append(crate::text::replace_newlines(style.style.as_str()).as_str());
    first.append(INSTRUCTIONS_AFTER_STYLE);
    first.append(crate::text::replace_newlines(style.contents.as_str()).as_str());
    first.append(INSTRUCTIONS_AFTER_CONTENTS);
    first.append(crate::text::replace_newlines(style.negative_contents.as_str()).as_str());
    first.append(INSTRUCTIONS_CLOSING);
    let second = cat(HISTORY_HEADING, history.as_str());
    let ghost h = history@;
    let ghost e = examples@;
    let mut context: Vec<String> = Vec::new();
    context.push(first);
    context.push(second);
    if examples.as_str().unicode_len() != 0 {
        context.push(cat(EXAMPLES_HEADING, examples.as_str()));
    }
    assert(views(context@) =~= request_context(db.style.texts(), h, e));
    let mut text = String::from_str(USER_REQUEST);
    match message {
        Some(m) => {
            text.append(USER_NOTE_LEAD);
            text.append(m.as_str());
        },
        None => {},
    }
    PromptRequest { context, message: text }
}

/// Why the language model's answer could not be used.
pub enum LlmError {
    /// The service answered with a failure status (its status line) and
    /// this text.
    Failed { status: String, text: String },
    /// The answer had no message content in its first choice.
    UnexpectedStructure,
    /// The content did not parse; the parser's error and the content.
    Unparsable { error: String, output: String },
}

/// The message that reports an unusable answer.
pub open spec fn llm_error_text(e: LlmError) -> Seq<char> {
    match e {
        LlmError::Failed { status, text } => "Request failed with status "@ + status@ + ": "@
            + text@,
        LlmError::UnexpectedStructure => "Unexpected response structure"@,
        LlmError::Unparsable { error, output } => "Serialization failed: "@ + error@
            + " - Outputted text: "@ + output@,
    }
}

impl LlmError {
    /// The message that reports this failure.
    pub fn message(&self) -> (m: String)
        ensures
            m@ == llm_error_text(*self),
    {
        match self {
            LlmError::Failed { status, text } => {
                let mut m = cat("Request failed with status ", status.as_str());
                m.append(": ");
                m.append(text.as_str());
                m
            },
            LlmError::UnexpectedStructure => String::from_str("Unexpected response structure"),
            LlmError::Unparsable { error, output } => {
                let mut m = cat("Serialization failed: ", error.as_str());
                m.append(" - Outputted text: ");
                m.append(output.as_str());
                m
            },
        }
    }
}

/// The content of the answer: the message content of its first choice,
/// given the contents of its choices (`None` for one that is not a string).
pub fn answer_content(contents: &[Option<String>]) -> (res: Result<String, LlmError>)
    ensures
        res is Ok <==> (contents@.len() > 0 && contents@[0] is Some),
        res matches Ok(t) ==> contents@[0] == Some(t),
        res matches Err(e) ==> e is UnexpectedStructure,
{
    if contents.len() == 0 {
        return Err(LlmError::UnexpectedStructure);
    }
    match &contents[0] {
        Some(t) => Ok(t.clone()),
        None => Err(LlmError::UnexpectedStructure),
    }
}

} // verus!
