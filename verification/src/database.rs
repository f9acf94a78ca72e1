//! The rows the wallpaper table hands out, and the rules that decide where
//! the table lives and how a rating changes.
use crate::common::LikedState;
use crate::sorting::Keyed;
use vstd::prelude::*;

verus! {

/// What prompt generation reads of a past wallpaper.
#[derive(Clone, Debug)]
pub struct PromptContext {
    pub shortened_prompt: String,
    pub liked_state: LikedState,
    pub comment: Option<String>,
}

/// What the picture endpoints read of a wallpaper.
#[derive(Clone, Debug)]
pub struct WallpaperChoice {
    pub id: u128,
    pub image_file: String,
    /// The bit pattern of the `f32` brightness.
    pub image_brightness: u32,
}

impl Keyed for WallpaperChoice {
    open spec fn key(&self) -> int {
        self.id as int
    }

    fn key_le(&self, other: &Self) -> (res: bool) {
        self.id <= other.id
    }
}

/// `s` up to the first occurrence of `c`, or all of `s` when it has none.
pub open spec fn before_char(s: Seq<char>, c: char) -> Seq<char>
    decreases s.len(),
{
    if s.len() == 0 {
        s
    } else if s[0] == c {
        Seq::empty()
    } else {
        seq![s[0]] + before_char(s.drop_first(), c)
    }
}

/// The file a `sqlite://` address names: the text after the scheme up to the
/// first `?`; none for other schemes and for the in-memory database.
pub open spec fn sqlite_path(url: Seq<char>) -> Option<Seq<char>> {
    let scheme = "sqlite://"@;
    if url.len() >= scheme.len() && url.take(scheme.len() as int) == scheme {
        let rest = url.skip(scheme.len() as int);
        if rest == ":memory:"@ {
            None
        } else {
            Some(before_char(rest, '?'))
        }
    } else {
        None
    }
}

proof fn lemma_before_char_at(s: Seq<char>, c: char, i: int)
    requires
        0 <= i <= s.len(),
        forall|k: int| 0 <= k < i ==> s[k] != c,
        i == s.len() || s[i] == c,
    ensures
        before_char(s, c) == s.take(i),
    decreases i,
{
    if i == 0 {
        assert(s.take(0) =~= Seq::<char>::empty());
    } else {
        lemma_before_char_at(s.drop_first(), c, i - 1);
        assert(s.take(i) =~= seq![s[0]] + s.drop_first().take(i - 1));
    }
}

/// The file path of a `sqlite://` database address, without its query
/// part; `None` for other addresses and for `sqlite://:memory:`.
pub fn sqlite_file_path(database_url: &str) -> (path: Option<&str>)
    ensures
        match path {
            Some(p) => sqlite_path(database_url@) == Some(p@),
            None => sqlite_path(database_url@) is None,
        },
{
    proof {
        reveal_strlit("sqlite://");
    }
    let scheme = "sqlite://";
    let n = database_url.unicode_len();
    let m = scheme.unicode_len();
    if n < m {
        return None;
    }
    let head = database_url.substring_char(0, m);
    if !crate::text::str_eq(head, scheme) {
        return None;
    }
    let rest = database_url.substring_char(m, n);
    assert(rest@ == database_url@.skip(m as int));
    if crate::text::str_eq(rest, ":memory:") {
        return None;
    }
    let k = rest.unicode_len();
    let mut i: usize = 0;
    while i < k && rest.get_char(i) != '?'
        invariant
            k == rest@.len(),
            i <= k,
            forall|j: int| 0 <= j < i ==> rest@[j] != '?',
        decreases k - i,
    {
        i = i + 1;
    }
    proof {
        lemma_before_char_at(rest@, '?', i as int);
    }
    Some(rest.substring_char(0, i))
}

/// What a rating request does to a stored wallpaper.
#[derive(Clone, Copy, Debug, PartialEq, Eq, Structural)]
pub struct LikedStateChange {
    /// The rating stored afterwards; `None` when there is no such wallpaper.
    pub stored: Option<LikedState>,
    /// Whether the row was changed.
    pub updated: bool,
    /// Whether the wallpaper's picture file is to be deleted.
    pub delete_file: bool,
}

/// The rule the wallpaper table applies to a rating request: `Disliked` is
/// final, so a disliked wallpaper keeps its rating and nothing changes; any
/// other wallpaper takes the rating asked for. A wallpaper that becomes
/// disliked has its picture file deleted.
pub open spec fn liked_state_rule(current: Option<LikedState>, requested: LikedState) -> LikedStateChange {
    match current {
        None => LikedStateChange { stored: None, updated: false, delete_file: false },
        Some(LikedState::Disliked) => LikedStateChange {
            stored: Some(LikedState::Disliked),
            updated: false,
            delete_file: false,
        },
        Some(_) => LikedStateChange {
            stored: Some(requested),
            updated: true,
            delete_file: requested == LikedState::Disliked,
        },
    }
}

/// Only `Disliked` is final: a request on a wallpaper with any other rating
/// stores the rating asked for and changes the row, and the picture file is
/// deleted exactly when the new rating is `Disliked`. A request on a
/// wallpaper that does not exist stores nothing and changes nothing.
pub proof fn lemma_other_ratings_follow_requests(current: LikedState, requested: LikedState)
    ensures
        current != LikedState::Disliked ==> {
            &&& liked_state_rule(Some(current), requested).stored == Some(requested)
            &&& liked_state_rule(Some(current), requested).updated
            &&& liked_state_rule(Some(current), requested).delete_file == (requested
                == LikedState::Disliked)
        },
        liked_state_rule(None, requested).stored is None,
        !liked_state_rule(None, requested).updated,
        !liked_state_rule(None, requested).delete_file,
{
}

/// The rating stored after a run of rating requests, starting from
/// `current`.
pub open spec fn after_requests(current: Option<LikedState>, requests: Seq<LikedState>) -> Option<
    LikedState,
>
    decreases requests.len(),
{
    if requests.len() == 0 {
        current
    } else {
        after_requests(liked_state_rule(current, requests[0]).stored, requests.drop_first())
    }
}

/// `Disliked` is final: once a wallpaper is disliked, no run of rating
/// requests changes its rating, and no request on it changes its row or
/// deletes its file again.
pub proof fn lemma_disliked_is_final(requests: Seq<LikedState>)
    ensures
        after_requests(Some(LikedState::Disliked), requests) == Some(LikedState::Disliked),
        forall|r: LikedState|
            !(#[trigger] liked_state_rule(Some(LikedState::Disliked), r)).updated
                && !liked_state_rule(Some(LikedState::Disliked), r).delete_file,
    decreases requests.len(),
{
    if requests.len() > 0 {
        lemma_disliked_is_final(requests.drop_first());
    }
}

/// What a rating request does to a wallpaper whose stored rating is
/// `current` (`None` when there is no such wallpaper).
pub fn liked_state_change(current: Option<LikedState>, requested: LikedState) -> (change: LikedStateChange)
    ensures
        change == liked_state_rule(current, requested),
{
    match current {
        None => LikedStateChange { stored: None, updated: false, delete_file: false },
        Some(LikedState::Disliked) => LikedStateChange {
            stored: Some(LikedState::Disliked),
            updated: false,
            delete_file: false,
        },
        Some(_) => LikedStateChange {
            stored: Some(requested),
            updated: true,
            delete_file: requested == LikedState::Disliked,
        },
    }
}

} // verus!
