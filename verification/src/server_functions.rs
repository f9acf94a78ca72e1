//! The decisions of the web application's server functions.
use crate::common::LikedState;
use crate::server::image::{toggle, toggled, NotFound};
use crate::text::{is_blank, str_is_blank};
use vstd::prelude::*;

verus! {

/// The view of an optional text.
pub open spec fn text_view(s: Option<String>) -> Option<Seq<char>> {
    match s {
        Some(t) => Some(t@),
        None => None,
    }
}

/// A text that is empty once trimmed counts as no text at all.
pub open spec fn non_blank_spec(text: Option<Seq<char>>) -> Option<Seq<char>> {
    match text {
        Some(t) => if is_blank(t) {
            None
        } else {
            Some(t)
        },
        None => None,
    }
}

/// Drops a text that is empty once trimmed of white space; the custom
/// prompt of a generation request and the note on a wallpaper are read
/// this way.
pub fn non_blank(text: Option<String>) -> (res: Option<String>)
    ensures
        text_view(res) == non_blank_spec(text_view(text)),
        res matches Some(r) ==> text == Some(r),
{
    match text {
        Some(t) => if str_is_blank(t.as_str()) {
            None
        } else {
            Some(t)
        },
        None => None,
    }
}

/// The rating to store for a like request on a wallpaper whose stored
/// rating is `current`: the request toggles, so asking for the rating it
/// already has clears it to `Neutral`. No wallpaper, no rating.
pub fn like_update(current: Option<LikedState>, requested: LikedState) -> (res: Result<LikedState, NotFound>)
    ensures
        match current {
            None => res is Err,
            Some(c) => res == Ok::<LikedState, NotFound>(toggled(c, requested)),
        },
{
    match current {
        None => Err(NotFound),
        Some(c) => Ok(toggle(c, requested)),
    }
}

} // verus!
