//! The records the server keeps and the packets that travel between the
//! client and the server.
//!
//! Times are microseconds since the Unix epoch, in UTC. Identifiers are the
//! 128-bit values of UUIDs. Measured colour values are kept as the IEEE-754
//! bit patterns of the `f32` values that were measured, so that they travel
//! through the records unchanged.
use crate::text::str_eq;
use vstd::prelude::*;

pub mod catalog;
pub mod utils;

verus! {

/// How the user rated a wallpaper.
#[derive(Clone, Copy, Debug, PartialEq, Eq, Structural, Hash)]
pub enum LikedState {
    Loved,
    Liked,
    Neutral,
    Disliked,
}

/// The name a rating is stored and shown under.
pub open spec fn liked_state_name(state: LikedState) -> Seq<char> {
    match state {
        LikedState::Loved => "Loved"@,
        LikedState::Liked => "Liked"@,
        LikedState::Neutral => "Neutral"@,
        LikedState::Disliked => "Disliked"@,
    }
}

/// The rating stored under a name, if any.
pub open spec fn parse_liked_state(name: Seq<char>) -> Option<LikedState> {
    if name == "Loved"@ {
        Some(LikedState::Loved)
    } else if name == "Liked"@ {
        Some(LikedState::Liked)
    } else if name == "Neutral"@ {
        Some(LikedState::Neutral)
    } else if name == "Disliked"@ {
        Some(LikedState::Disliked)
    } else {
        None
    }
}

impl LikedState {
    /// The name the rating is stored and shown under.
    pub fn as_str(&self) -> (name: &'static str)
        ensures
            name@ == liked_state_name(*self),
    {
        match self {
            LikedState::Loved => "Loved",
            LikedState::Liked => "Liked",
            LikedState::Neutral => "Neutral",
            LikedState::Disliked => "Disliked",
        }
    }

    /// The rating stored under `name`; `None` for any other text.
    pub fn from_name(name: &str) -> (state: Option<LikedState>)
        ensures
            state == parse_liked_state(name@),
    {
        if str_eq(name, "Loved") {
            Some(LikedState::Loved)
        } else if str_eq(name, "Liked") {
            Some(LikedState::Liked)
        } else if str_eq(name, "Neutral") {
            Some(LikedState::Neutral)
        } else if str_eq(name, "Disliked") {
            Some(LikedState::Disliked)
        } else {
            None
        }
    }
}

/// Reading back the name of a rating gives the rating.
pub proof fn lemma_liked_state_name_round_trip(state: LikedState)
    ensures
        parse_liked_state(liked_state_name(state)) == Some(state),
{
    reveal_strlit("Loved");
    reveal_strlit("Liked");
    reveal_strlit("Neutral");
    reveal_strlit("Disliked");
    assert("Loved"@ != "Liked"@ && "Loved"@ != "Neutral"@ && "Loved"@ != "Disliked"@) by {
        assert("Loved"@[1] != "Liked"@[1]);
        assert("Loved"@.len() != "Neutral"@.len());
        assert("Loved"@.len() != "Disliked"@.len());
    }
    assert("Liked"@ != "Neutral"@ && "Liked"@ != "Disliked"@) by {
        assert("Liked"@.len() != "Neutral"@.len());
        assert("Liked"@.len() != "Disliked"@.len());
    }
    assert("Neutral"@ != "Disliked"@) by {
        assert("Neutral"@.len() != "Disliked"@.len());
    }
}

/// The standing instructions that go into every prompt.
#[derive(Clone, Debug)]
pub struct DatabaseStyle {
    /// The style every wallpaper is made in: painted, realistic and so on.
    pub style: String,
    /// What kind of pictures to ask for.
    pub contents: String,
    /// What to avoid.
    pub negative_contents: String,
}

impl DatabaseStyle {
    /// The instructions a new database starts with.
    pub open spec fn initial() -> (Seq<char>, Seq<char>, Seq<char>) {
        (
            "Digital paintings"@,
            "Epic fantasy, surreal, abstract, landscapes"@,
            "No people, don't go for highly complex"@,
        )
    }

    /// The three texts, in order.
    pub open spec fn texts(self) -> (Seq<char>, Seq<char>, Seq<char>) {
        (self.style@, self.contents@, self.negative_contents@)
    }
}

impl Default for DatabaseStyle {
    fn default() -> (res: Self)
        ensures
            res.texts() == DatabaseStyle::initial(),
    {
        DatabaseStyle {
            style: String::from_str("Digital paintings"),
            contents: String::from_str("Epic fantasy, surreal, abstract, landscapes"),
            negative_contents: String::from_str("No people, don't go for highly complex"),
        }
    }
}

/// A stored picture file and its size in pixels.
#[derive(Clone, Debug)]
pub struct ImageFile {
    pub file_name: String,
    pub width: u32,
    pub height: u32,
}

/// The prompt a wallpaper was generated from.
#[derive(Clone, Debug)]
pub struct PromptData {
    /// The prompt sent to the image generator.
    pub prompt: String,
    /// The picture's description alone, without the style: about six words.
    pub shortened_prompt: String,
}

/// Colour measurements of a wallpaper; each value is the bit pattern of an
/// `f32`.
#[derive(Clone, Copy, Debug)]
pub struct ColorData {
    pub average_color: (u32, u32, u32),
    pub hue: u32,
    pub saturation: u32,
    pub lightness: u32,
    pub chroma: u32,
    pub top_20_percent_brightness: u32,
    pub bottom_20_percent_brightness: u32,
    pub contrast_ratio: u32,
}

/// A generated wallpaper, as the file-backed server keeps it.
#[derive(Clone, Debug)]
pub struct WallpaperData {
    pub id: u128,
    pub datetime: i64,
    pub prompt_data: PromptData,
    pub image_file: ImageFile,
    pub color_data: ColorData,
    pub thumbnail_file: ImageFile,
    pub thumbhash: Vec<u8>,
    pub liked_state: LikedState,
}

/// A free-standing comment the user left for the prompt generator.
#[derive(Clone, Debug)]
pub struct CommentData {
    pub id: u128,
    pub datetime: i64,
    pub comment: String,
}

/// Everything the file-backed server keeps. The wallpapers and the comments
/// are each keyed by their identifiers; they are held in the order the
/// stored maps hand them out.
#[derive(Clone, Debug)]
pub struct Database {
    pub style: DatabaseStyle,
    pub wallpapers: Vec<WallpaperData>,
    pub comments: Vec<CommentData>,
}

/// Whether no two wallpapers share an identifier.
pub open spec fn wallpaper_ids_unique(s: Seq<WallpaperData>) -> bool {
    forall|i: int, j: int| 0 <= i < s.len() && 0 <= j < s.len() && i != j ==> s[i].id != s[j].id
}

/// Whether no two comments share an identifier.
pub open spec fn comment_ids_unique(s: Seq<CommentData>) -> bool {
    forall|i: int, j: int| 0 <= i < s.len() && 0 <= j < s.len() && i != j ==> s[i].id != s[j].id
}

impl Database {
    /// Each identifier names at most one wallpaper and at most one comment.
    pub open spec fn well_formed(&self) -> bool {
        wallpaper_ids_unique(self.wallpapers@) && comment_ids_unique(self.comments@)
    }
}

impl Default for Database {
    fn default() -> (res: Self)
        ensures
            res.style.texts() == DatabaseStyle::initial(),
            res.wallpapers@ == Seq::<WallpaperData>::empty(),
            res.comments@ == Seq::<CommentData>::empty(),
            res.well_formed(),
    {
        Database { style: DatabaseStyle::default(), wallpapers: Vec::new(), comments: Vec::new() }
    }
}

/// The credentials a client logs in with.
#[derive(Clone, Debug)]
pub struct LoginPacket {
    pub username: String,
    pub password: String,
}

/// A request that carries nothing but the session token.
#[derive(Clone, Debug)]
pub struct TokenPacket {
    pub token: String,
}

/// A request that carries a token and a text.
#[derive(Clone, Debug)]
pub struct TokenStringPacket {
    pub token: String,
    pub string: String,
}

/// A request that carries a token and the identifier of a record.
#[derive(Clone, Debug)]
pub struct TokenUuidPacket {
    pub token: String,
    pub uuid: u128,
}

/// A request that rates a wallpaper.
#[derive(Clone, Debug)]
pub struct TokenUuidLikedPacket {
    pub token: String,
    pub uuid: u128,
    pub liked: LikedState,
}

/// A request that replaces one of the style texts.
#[derive(Clone, Debug)]
pub struct SetStylePacket {
    pub token: String,
    pub variant: StyleVariant,
    pub string: String,
}

/// Which of the style texts a request replaces.
#[derive(Clone, Copy, Debug, PartialEq, Eq, Structural)]
pub enum StyleVariant {
    Style,
    Contents,
    NegativeContents,
}

} // verus!
