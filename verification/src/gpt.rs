//! What the database-backed server asks the language model for a new
//! prompt, and how it reads the answer.
pub use crate::common::PromptData;
use crate::common::catalog::WallpaperData;
use crate::common::LikedState;
use crate::fresh::new_uuid;
use crate::history::{line_view, newest_first, newest_texts, TimedLine};
use crate::server::gpt::USER_NOTE_LEAD;
use crate::text::{cat, join, join_with, views};
use vstd::prelude::*;

verus! {

/// The instructions that open the request, up to the user's wish.
pub const CONTEXT_OPENING: &'static str = r#"You are a professional digital journalist. Synthesize the provided sources into a high-quality, long-form digital article.

You are a creative wallpaper image prompt generator. Write a vivid, prompt for a desktop wallpaper, don't go heavy on flowery language, keep it simple and descriptive

You MUST return a JSON object with this exact structure:
{
    "prompt": "The prompt to send to the image generator, aim for 14 words, max 30 words.",
    "shortened_prompt": "A concise version of the prompt, only including the image description not style, aim for 6 words, max 18 words.",
}

Start directly with the main subject, omitting leading articles. Use sentence case, single line only, no colons, use only commas for punctuation.
Style: Digital paintings (request this in the prompt most of the time, digital painting, oil painting, chalk sketch etc, always specify a style for the artwork in the prompt), colourful, looks great as a desktop wallpaper even when heavily blurred behind apps
No people, avoid high complexity."#;

/// The text between the user's wish and the generation identifier.
pub const CONTEXT_BEFORE_ID: &'static str = r#"

Generation id: "#;

/// The text between the generation identifier and the history.
pub const CONTEXT_BEFORE_HISTORY: &'static str = r#"
If user liked an image of a butterfly, don't assume that means they want to see more similar butterfly wallpapers, they already have a butterfly wallpaper now so just take it as learning what style they like. They also might like the composition and colours not just the contents.
RECENT HISTORY (newest first) — a reference for the users taste profile and also to avoid repeating similar prompts:
"#;

/// The most history lines shown.
pub const HISTORY_LIMIT: usize = 50;

/// How a rating is marked in the history.
pub open spec fn feedback_mark(state: LikedState) -> Seq<char> {
    match state {
        LikedState::Loved => " [LOVED by user]"@,
        LikedState::Liked => " [liked by user]"@,
        LikedState::Disliked => " [disliked by user]"@,
        LikedState::Neutral => Seq::empty(),
    }
}

/// The history entry of a wallpaper: its short prompt, its rating and the
/// user's note, if any.
pub open spec fn context_entry(w: WallpaperData) -> Seq<char> {
    "• "@ + w.shortened_prompt@ + feedback_mark(w.liked_state) + match w.comment {
        Some(note) => "  user note: "@ + note@,
        None => Seq::empty(),
    }
}

/// The history lines: the newest `HISTORY_LIMIT` entries, newest first.
pub open spec fn context_lines(wallpapers: Seq<WallpaperData>) -> Seq<Seq<char>> {
    newest_texts(
        wallpapers.map_values(|w: WallpaperData| (w.datetime as int, context_entry(w))),
        HISTORY_LIMIT as int,
    )
}

/// Each history line carries the mark of its wallpaper's rating after the
/// short prompt: " [LOVED by user]" for a loved one, " [liked by user]" for
/// a liked one, " [disliked by user]" for a disliked one and nothing for an
/// unrated one, then the user's note; and no two ratings share a mark, so
/// the language model never reads one rating as another.
pub proof fn lemma_feedback_marks(w: WallpaperData, a: LikedState, b: LikedState)
    ensures
        ({
            let note = match w.comment {
                Some(n) => "  user note: "@ + n@,
                None => Seq::<char>::empty(),
            };
            let lead = "• "@ + w.shortened_prompt@;
            &&& w.liked_state == LikedState::Loved ==> context_entry(w) == lead
                + " [LOVED by user]"@ + note
            &&& w.liked_state == LikedState::Liked ==> context_entry(w) == lead
                + " [liked by user]"@ + note
            &&& w.liked_state == LikedState::Disliked ==> context_entry(w) == lead
                + " [disliked by user]"@ + note
            &&& w.liked_state == LikedState::Neutral ==> context_entry(w) == lead + note
        }),
        feedback_mark(a) == feedback_mark(b) ==> a == b,
{
    reveal_strlit(" [LOVED by user]");
    reveal_strlit(" [liked by user]");
    reveal_strlit(" [disliked by user]");
    let loved = " [LOVED by user]"@;
    let liked = " [liked by user]"@;
    let disliked = " [disliked by user]"@;
    assert(loved != liked) by {
        assert(loved[2] != liked[2]);
    }
    assert(loved.len() != disliked.len());
    assert(liked.len() != disliked.len());
    assert(loved.len() != 0 && liked.len() != 0 && disliked.len() != 0);
    if w.liked_state == LikedState::Neutral {
        assert(feedback_mark(w.liked_state) =~= Seq::<char>::empty());
    }
}

fn feedback_mark_text(state: LikedState) -> (mark: &'static str)
    ensures
        mark@ == feedback_mark(state),
{
    match state {
        LikedState::Loved => " [LOVED by user]",
        LikedState::Liked => " [liked by user]",
        LikedState::Disliked => " [disliked by user]",
        LikedState::Neutral => {
            proof {
                reveal_strlit("");
            }
            ""
        },
    }
}

/// The history of past wallpapers shown to the language model, one line
/// each, newest first, joined by newlines.
pub fn build_context(wallpapers: &[WallpaperData]) -> (history: String)
    ensures
        history@ == join_with(context_lines(wallpapers@), "\n"@),
{
    let ghost lv = |l: TimedLine| line_view(l);
    let ghost ev = |w: WallpaperData| (w.datetime as int, context_entry(w));
    let n = wallpapers.len();
    let mut entries: Vec<TimedLine> = Vec::new();
    let mut i: usize = 0;
    while i < n
        invariant
            n == wallpapers@.len(),
            i <= n,
            entries@.map_values(lv) == wallpapers@.take(i as int).map_values(ev),
            lv == (|l: TimedLine| line_view(l)),
            ev == (|w: WallpaperData| (w.datetime as int, context_entry(w))),
        decreases n - i,
    {
        let w = &wallpapers[i];
        let mut text = cat("• ", w.shortened_prompt.as_str());
        text.append(feedback_mark_text(w.liked_state));
        match &w.comment {
            Some(note) => {
                text.append("  user note: ");
                text.append(note.as_str());
            },
            None => {},
        }
        assert(text@ =~= context_entry(*w));
        let ghost before = entries@;
        entries.push(TimedLine { time: w.datetime, text });
        proof {
            assert(entries@.map_values(lv) =~= before.map_values(lv).push(ev(*w)));
            assert(wallpapers@.take(i + 1) =~= wallpapers@.take(i as int).push(*w));
            assert(wallpapers@.take(i + 1).map_values(ev) =~= wallpapers@.take(i as int).map_values(
                ev,
            ).push(ev(*w)));
        }
        i = i + 1;
    }
    assert(wallpapers@.take(n as int) =~= wallpapers@);
    let recent = newest_first(entries, HISTORY_LIMIT);
    join(&recent, "\n")
}

/// The hexadecimal digit of a value below sixteen, in lower case.
pub open spec fn hex_char(v: int) -> char {
    if v < 10 {
        (48 + v) as char
    } else {
        (87 + v) as char
    }
}

/// The `k`-th hexadecimal digit of a 128-bit value, from the most
/// significant.
pub open spec fn nibble(id: u128, k: int) -> int {
    (id as int / vstd::arithmetic::power::pow(16, (31 - k) as nat)) % 16
}

/// The hyphenated lower-case form of a UUID: its 32 hexadecimal digits, most
/// significant first, in groups of 8, 4, 4, 4 and 12.
pub open spec fn uuid_text(id: u128) -> Seq<char> {
    Seq::new(
        36,
        |i: int|
            if i == 8 || i == 13 || i == 18 || i == 23 {
                '-'
            } else {
                hex_char(
                    nibble(
                        id,
                        if i < 8 {
                            i
                        } else if i < 13 {
                            i - 1
                        } else if i < 18 {
                            i - 2
                        } else if i < 23 {
                            i - 3
                        } else {
                            i - 4
                        },
                    ),
                )
            },
    )
}

/// The text of a UUID: calls `uuid::Uuid::from_u128` and `to_string`, whose
/// documentation gives the hyphenated lower-case form.
#[verifier::external_body]
fn uuid_string(id: u128) -> (text: String)
    ensures
        text@ == uuid_text(id),
{
    uuid::Uuid::from_u128(id).to_string()
}

/// The request text for a new prompt, given the history, the user's wish
/// and a generation identifier that makes each request different.
pub open spec fn request_text(history: Seq<char>, message: Option<Seq<char>>, id: u128) -> Seq<char> {
    CONTEXT_OPENING@ + crate::server::gpt::user_note(message) + CONTEXT_BEFORE_ID@ + uuid_text(id)
        + CONTEXT_BEFORE_HISTORY@ + history
}

/// The request text for a new prompt.
pub fn generation_request(history: &str, message: Option<String>, id: u128) -> (text: String)
    ensures
        text@ == request_text(history@, crate::server::gpt::opt_view(message), id),
{
    let mut text = String::from_str(CONTEXT_OPENING);
    match message {
        Some(m) => {
            text.append(USER_NOTE_LEAD);
            text.append(m.as_str());
        },
        None => {},
    }
    text.append(CONTEXT_BEFORE_ID);
    text.append(uuid_string(id).as_str());
    text.append(CONTEXT_BEFORE_HISTORY);
    text.append(history);
    text
}

/// The request for a new prompt, built from the past wallpapers and the
/// user's wish, with a fresh random generation identifier.
pub fn generate(wallpapers: &[WallpaperData], message: Option<String>) -> (text: String)
    ensures
        exists|id: u128|
            text@ == request_text(
                join_with(context_lines(wallpapers@), "\n"@),
                crate::server::gpt::opt_view(message),
                id,
            ),
{
    let history = build_context(wallpapers);
    let id = new_uuid();
    generation_request(history.as_str(), message, id)
}

/// An item of the language model's answer: whether its type is the output
/// text, and its text when that is a string.
#[derive(Clone, Debug)]
pub struct OutputItem {
    pub is_output_text: bool,
    pub text: Option<String>,
}

/// The index of the first item that is the output text, if any.
pub open spec fn output_text_index(items: Seq<OutputItem>) -> Option<int>
    decreases items.len(),
{
    if items.len() == 0 {
        None
    } else if items[0].is_output_text {
        Some(0)
    } else {
        match output_text_index(items.drop_first()) {
            Some(i) => Some(i + 1),
            None => None,
        }
    }
}

/// The answer's text: that of the first item that is the output text;
/// `None` when there is no such item or its text is not a string.
pub fn find_output_text(items: &[OutputItem]) -> (text: Option<String>)
    ensures
        match output_text_index(items@) {
            None => text is None,
            Some(i) => text == items@[i].text,
        },
{
    let n = items.len();
    let mut i: usize = 0;
    assert(items@.skip(0) =~= items@);
    while i < n
        invariant
            n == items@.len(),
            i <= n,
            forall|k: int| 0 <= k < i ==> !items@[k].is_output_text,
            output_text_index(items@) == match output_text_index(items@.skip(i as int)) {
                Some(j) => Some(j + i),
                None => None,
            },
        decreases n - i,
    {
        assert(items@.skip(i as int)[0] == items@[i as int]);
        if items[i].is_output_text {
            return match &items[i].text {
                Some(t) => Some(t.clone()),
                None => None,
            };
        }
        assert(items@.skip(i as int).drop_first() =~= items@.skip(i + 1));
        i = i + 1;
    }
    None
}

} // verus!
