//! The wallpaper records of the file-backed server: rating, removal,
//! lookup, and the choice of the picture to serve.
use crate::brightness::{bits_in_range, in_range};
use crate::common::{
    wallpaper_ids_unique, ColorData, Database, ImageFile, LikedState, PromptData, WallpaperData,
};
use crate::fresh::choose_index;
use crate::image::{consistent, hour_of_day, utc_hour, Picture};
use vstd::prelude::*;

verus! {

/// No wallpaper has the identifier asked for.
#[derive(Clone, Copy, Debug, PartialEq, Eq, Structural)]
pub struct NotFound;

/// The index of the wallpaper with the identifier, if any.
pub open spec fn wallpaper_index(s: Seq<WallpaperData>, id: u128) -> Option<int>
    decreases s.len(),
{
    if s.len() == 0 {
        None
    } else if s.last().id == id {
        Some(s.len() - 1)
    } else {
        wallpaper_index(s.drop_last(), id)
    }
}

proof fn lemma_wallpaper_index_found(s: Seq<WallpaperData>, id: u128, i: int)
    requires
        0 <= i < s.len(),
        s[i].id == id,
        forall|k: int| i < k < s.len() ==> s[k].id != id,
    ensures
        wallpaper_index(s, id) == Some(i),
    decreases s.len(),
{
    if i < s.len() - 1 {
        lemma_wallpaper_index_found(s.drop_last(), id, i);
    }
}

proof fn lemma_wallpaper_index_none(s: Seq<WallpaperData>, id: u128)
    requires
        forall|k: int| 0 <= k < s.len() ==> s[k].id != id,
    ensures
        wallpaper_index(s, id) is None,
    decreases s.len(),
{
    if s.len() > 0 {
        lemma_wallpaper_index_none(s.drop_last(), id);
    }
}

/// Finds the wallpaper with the identifier.
pub fn find_wallpaper(wallpapers: &Vec<WallpaperData>, id: u128) -> (index: Option<usize>)
    ensures
        wallpaper_index(wallpapers@, id) == match index {
            Some(i) => Some(i as int),
            None => None,
        },
        index matches Some(i) ==> i < wallpapers@.len() && wallpapers@[i as int].id == id,
{
    let n = wallpapers.len();
    let mut i: usize = n;
    while i > 0
        invariant
            n == wallpapers@.len(),
            i <= n,
            forall|k: int| i <= k < n ==> wallpapers@[k].id != id,
        decreases i,
    {
        if wallpapers[i - 1].id == id {
            proof {
                lemma_wallpaper_index_found(wallpapers@, id, i - 1);
            }
            return Some(i - 1);
        }
        i = i - 1;
    }
    proof {
        lemma_wallpaper_index_none(wallpapers@, id);
    }
    None
}

/// The rating a like request leaves: asking for the rating a wallpaper
/// already has clears it back to neutral; any other request sets it.
pub open spec fn toggled(current: LikedState, requested: LikedState) -> LikedState {
    if current == requested {
        LikedState::Neutral
    } else {
        requested
    }
}

/// The rating a like request leaves.
pub fn toggle(current: LikedState, requested: LikedState) -> (next: LikedState)
    ensures
        next == toggled(current, requested),
{
    if current == requested {
        LikedState::Neutral
    } else {
        requested
    }
}

/// Rates the wallpaper with the identifier, as `toggled` says; nothing
/// changes when there is none.
pub fn like(db: &mut Database, id: u128, liked: LikedState) -> (res: Result<(), NotFound>)
    requires
        old(db).well_formed(),
    ensures
        final(db).well_formed(),
        final(db).comments@ == old(db).comments@,
        final(db).style == old(db).style,
        match wallpaper_index(old(db).wallpapers@, id) {
            None => res == Err::<(), NotFound>(NotFound) && final(db).wallpapers@ == old(
                db,
            ).wallpapers@,
            Some(i) => res == Ok::<(), NotFound>(()) && final(db).wallpapers@ == old(
                db,
            ).wallpapers@.update(
                i,
                WallpaperData {
                    liked_state: toggled(old(db).wallpapers@[i].liked_state, liked),
                    ..old(db).wallpapers@[i]
                },
            ),
        },
{
    let i = match find_wallpaper(&db.wallpapers, id) {
        Some(i) => i,
        None => return Err(NotFound),
    };
    let mut w = db.wallpapers.remove(i);
    w.liked_state = toggle(w.liked_state, liked);
    db.wallpapers.insert(i, w);
    assert(db.wallpapers@ =~= old(db).wallpapers@.update(
        i as int,
        WallpaperData {
            liked_state: toggled(old(db).wallpapers@[i as int].liked_state, liked),
            ..old(db).wallpapers@[i as int]
        },
    ));
    assert(wallpaper_ids_unique(db.wallpapers@));
    Ok(())
}

/// Takes the wallpaper with the identifier out of the database and hands
/// back the names of its picture file and its thumbnail file, which are to
/// be deleted.
pub fn remove_wallpaper_impl(db: &mut Database, id: u128) -> (res: Result<(String, String), NotFound>)
    requires
        old(db).well_formed(),
    ensures
        final(db).well_formed(),
        final(db).comments@ == old(db).comments@,
        final(db).style == old(db).style,
        match wallpaper_index(old(db).wallpapers@, id) {
            None => res is Err && final(db).wallpapers@ == old(db).wallpapers@,
            Some(i) => (res matches Ok(files) && files.0@ == old(
                db,
            ).wallpapers@[i].image_file.file_name@ && files.1@ == old(
                db,
            ).wallpapers@[i].thumbnail_file.file_name@ && final(db).wallpapers@ == old(
                db,
            ).wallpapers@.remove(i)),
        },
        forall|k: int| 0 <= k < final(db).wallpapers@.len() ==> #[trigger] final(db).wallpapers@[k].id != id,
{
    let i = match find_wallpaper(&db.wallpapers, id) {
        Some(i) => i,
        None => {
            proof {
                assert forall|k: int| 0 <= k < db.wallpapers@.len() implies #[trigger] db.wallpapers@[k].id != id by {
                    if db.wallpapers@[k].id == id {
                        lemma_wallpaper_index_found_some(db.wallpapers@, id, k);
                    }
                }
            }
            return Err(NotFound);
        },
    };
    let w = db.wallpapers.remove(i);
    assert(wallpaper_ids_unique(db.wallpapers@));
    Ok((w.image_file.file_name, w.thumbnail_file.file_name))
}

proof fn lemma_wallpaper_index_found_some(s: Seq<WallpaperData>, id: u128, k: int)
    requires
        0 <= k < s.len(),
        s[k].id == id,
    ensures
        wallpaper_index(s, id) is Some,
    decreases s.len(),
{
    if s.last().id != id {
        lemma_wallpaper_index_found_some(s.drop_last(), id, k);
    }
}

proof fn lemma_wallpaper_index_props(s: Seq<WallpaperData>, id: u128)
    ensures
        wallpaper_index(s, id) matches Some(i) ==> 0 <= i < s.len() && s[i].id == id && forall|
            k: int,
        |
            i < k < s.len() ==> s[k].id != id,
    decreases s.len(),
{
    if s.len() > 0 && s.last().id != id {
        let t = s.drop_last();
        lemma_wallpaper_index_props(t, id);
        if let Some(i) = wallpaper_index(t, id) {
            assert forall|k: int| i < k < s.len() implies s[k].id != id by {
                if k < t.len() {
                    assert(s[k] == t[k]);
                }
            }
        }
    }
}

/// A like request leaves either the rating asked for or neutral, and asking
/// twice in a row for a rating the wallpaper does not have brings it back to
/// neutral.
pub proof fn lemma_like_twice_clears(current: LikedState, requested: LikedState)
    ensures
        toggled(current, requested) == requested || toggled(current, requested)
            == LikedState::Neutral,
        current != requested ==> toggled(toggled(current, requested), requested)
            == LikedState::Neutral,
{
}

/// A stored wallpaper is found under its identifier afterwards.
pub proof fn lemma_inserted_wallpaper_found(s: Seq<WallpaperData>, w: WallpaperData)
    ensures
        ({
            let after = match wallpaper_index(s, w.id) {
                Some(i) => s.update(i, w),
                None => s.push(w),
            };
            wallpaper_index(after, w.id) matches Some(i) && after[i] == w
        }),
{
    lemma_wallpaper_index_props(s, w.id);
    match wallpaper_index(s, w.id) {
        Some(i) => {
            lemma_wallpaper_index_found(s.update(i, w), w.id, i);
        },
        None => {
            lemma_wallpaper_index_found(s.push(w), w.id, s.len() as int);
        },
    }
}

/// A copy of a prompt.
pub fn copy_prompt(p: &PromptData) -> (res: PromptData)
    ensures
        res == *p,
{
    PromptData { prompt: p.prompt.clone(), shortened_prompt: p.shortened_prompt.clone() }
}

/// The prompt a wallpaper was made from, to make another from it.
pub fn recreate(db: &Database, id: u128) -> (res: Result<PromptData, NotFound>)
    ensures
        match wallpaper_index(db.wallpapers@, id) {
            None => res is Err,
            Some(i) => res == Ok::<PromptData, NotFound>(db.wallpapers@[i].prompt_data),
        },
{
    match find_wallpaper(&db.wallpapers, id) {
        Some(i) => Ok(copy_prompt(&db.wallpapers[i].prompt_data)),
        None => Err(NotFound),
    }
}

/// Stores a wallpaper under its identifier, replacing any with the same one.
pub fn insert_wallpaper(db: &mut Database, wallpaper: WallpaperData)
    requires
        old(db).well_formed(),
    ensures
        final(db).well_formed(),
        final(db).comments@ == old(db).comments@,
        final(db).style == old(db).style,
        final(db).wallpapers@ == match wallpaper_index(old(db).wallpapers@, wallpaper.id) {
            Some(i) => old(db).wallpapers@.update(i, wallpaper),
            None => old(db).wallpapers@.push(wallpaper),
        },
{
    match find_wallpaper(&db.wallpapers, wallpaper.id) {
        Some(i) => {
            db.wallpapers.set(i, wallpaper);
            assert(wallpaper_ids_unique(db.wallpapers@));
        },
        None => {
            proof {
                assert forall|k: int| 0 <= k < db.wallpapers@.len() implies #[trigger] db.wallpapers@[k].id != wallpaper.id by {
                    if db.wallpapers@[k].id == wallpaper.id {
                        lemma_wallpaper_index_found_some(db.wallpapers@, wallpaper.id, k);
                    }
                }
            }
            db.wallpapers.push(wallpaper);
            assert(wallpaper_ids_unique(db.wallpapers@));
        },
    }
}

/// The index of the newest wallpaper; of several equally new ones, the last.
pub open spec fn latest_index(s: Seq<WallpaperData>) -> int
    decreases s.len(),
{
    if s.len() <= 1 {
        0
    } else {
        let j = latest_index(s.drop_last());
        if s.last().datetime >= s[j].datetime {
            s.len() - 1
        } else {
            j
        }
    }
}

proof fn lemma_latest_index_bounds(s: Seq<WallpaperData>)
    requires
        s.len() > 0,
    ensures
        0 <= latest_index(s) < s.len(),
        forall|k: int| 0 <= k < s.len() ==> #[trigger] s[k].datetime <= s[latest_index(s)].datetime,
    decreases s.len(),
{
    if s.len() > 1 {
        let t = s.drop_last();
        lemma_latest_index_bounds(t);
        assert forall|k: int| 0 <= k < s.len() implies #[trigger] s[k].datetime <= s[latest_index(
            s,
        )].datetime by {
            if k < s.len() - 1 {
                assert(t[k] == s[k]);
            }
            assert(t[latest_index(t)] == s[latest_index(t)]);
        }
    }
}

/// The picture file of the newest wallpaper (the last of several equally
/// new ones), or `None` when there are none.
pub fn latest(db: &Database) -> (file: Option<String>)
    ensures
        db.wallpapers@.len() == 0 ==> file is None,
        db.wallpapers@.len() > 0 ==> (file matches Some(f) && f@ == db.wallpapers@[latest_index(
            db.wallpapers@,
        )].image_file.file_name@),
{
    let n = db.wallpapers.len();
    if n == 0 {
        return None;
    }
    let mut best: usize = 0;
    let mut i: usize = 1;
    while i < n
        invariant
            n == db.wallpapers@.len(),
            1 <= i <= n,
            best == latest_index(db.wallpapers@.take(i as int)),
            best < i,
        decreases n - i,
    {
        proof {
            let t = db.wallpapers@.take(i + 1);
            assert(t.drop_last() =~= db.wallpapers@.take(i as int));
            lemma_latest_index_bounds(db.wallpapers@.take(i as int));
        }
        if db.wallpapers[i].datetime >= db.wallpapers[best].datetime {
            best = i;
        }
        i = i + 1;
    }
    assert(db.wallpapers@.take(n as int) =~= db.wallpapers@);
    Some(db.wallpapers[best].image_file.file_name.clone())
}

/// The wallpapers a picture endpoint may pick from, in their order.
pub open spec fn eligible(
    s: Seq<WallpaperData>,
    keep: spec_fn(WallpaperData) -> bool,
) -> Seq<WallpaperData>
    decreases s.len(),
{
    if s.len() == 0 {
        s
    } else if keep(s.last()) {
        eligible(s.drop_last(), keep).push(s.last())
    } else {
        eligible(s.drop_last(), keep)
    }
}

/// The wallpapers rated `Liked`.
pub open spec fn is_liked(w: WallpaperData) -> bool {
    w.liked_state == LikedState::Liked
}

/// The brightness range the file-backed server wants at an hour of the day;
/// the bit patterns of 0.3 and 0.6, 0.5 and 1.0, 0.0 and 0.55.
pub open spec fn old_brightness_range_at(hour: int) -> (u32, u32) {
    if (7 <= hour <= 9) || (17 <= hour <= 21) {
        (0x3e99_999a, 0x3f19_999a)
    } else if 10 <= hour <= 16 {
        (0x3f00_0000, 0x3f80_0000)
    } else {
        (0x0000_0000, 0x3f0c_cccd)
    }
}

/// The brightness ranges of the file-backed server's hours, as bit patterns
/// of `f32`: 0.3 to 0.6 at 7 to 9 and 17 to 21, 0.5 to 1 at 10 to 16, and 0
/// to 0.55 at night (0 to 6 and 22 to 23).
pub proof fn lemma_old_brightness_of_the_hours(hour: int)
    requires
        0 <= hour < 24,
    ensures
        (7 <= hour <= 9 || 17 <= hour <= 21) ==> old_brightness_range_at(hour) == (
            0x3e99_999au32,
            0x3f19_999au32,
        ),
        10 <= hour <= 16 ==> old_brightness_range_at(hour) == (0x3f00_0000u32, 0x3f80_0000u32),
        (hour <= 6 || hour >= 22) ==> old_brightness_range_at(hour) == (0u32, 0x3f0c_cccdu32),
{
}

/// Whether a wallpaper is rated `Liked` or `Loved` and its brightest fifth
/// lies in the range.
pub open spec fn suits(w: WallpaperData, range: (u32, u32)) -> bool {
    (w.liked_state == LikedState::Liked || w.liked_state == LikedState::Loved) && in_range(
        w.color_data.top_20_percent_brightness,
        range,
    )
}

/// Picks one of the wallpapers that `keep` accepts, at random.
fn pick_random(
    wallpapers: &Vec<WallpaperData>,
    Ghost(keep): Ghost<spec_fn(WallpaperData) -> bool>,
    accepted: &Vec<bool>,
) -> (file: Option<String>)
    requires
        accepted@.len() == wallpapers@.len(),
        forall|k: int| 0 <= k < wallpapers@.len() ==> accepted@[k] == keep(#[trigger] wallpapers@[k]),
    ensures
        file is None <==> eligible(wallpapers@, keep).len() == 0,
        file matches Some(f) ==> exists|k: int|
            0 <= k < eligible(wallpapers@, keep).len() && f@ == #[trigger] eligible(
                wallpapers@,
                keep,
            )[k].image_file.file_name@,
{
    let n = wallpapers.len();
    let mut count: usize = 0;
    let mut i: usize = 0;
    while i < n
        invariant
            n == wallpapers@.len(),
            accepted@.len() == n,
            forall|k: int| 0 <= k < n ==> accepted@[k] == keep(#[trigger] wallpapers@[k]),
            i <= n,
            count == eligible(wallpapers@.take(i as int), keep).len(),
            count <= i,
        decreases n - i,
    {
        assert(wallpapers@.take(i + 1).drop_last() =~= wallpapers@.take(i as int));
        if accepted[i] {
            count = count + 1;
        }
        i = i + 1;
    }
    assert(wallpapers@.take(n as int) =~= wallpapers@);
    let k = match choose_index(count) {
        Some(k) => k,
        None => return None,
    };
    let mut seen: usize = 0;
    let mut j: usize = 0;
    while j < n
        invariant
            n == wallpapers@.len(),
            accepted@.len() == n,
            forall|m: int| 0 <= m < n ==> accepted@[m] == keep(#[trigger] wallpapers@[m]),
            j <= n,
            seen == eligible(wallpapers@.take(j as int), keep).len(),
            seen <= k,
            k < count,
            count == eligible(wallpapers@, keep).len(),
            forall|m: int| 0 <= m < seen ==> #[trigger] eligible(wallpapers@, keep)[m] == eligible(wallpapers@.take(j as int), keep)[m],
        decreases n - j,
    {
        proof {
            lemma_eligible_prefix(wallpapers@, keep, j as int);
        }
        assert(wallpapers@.take(j + 1).drop_last() =~= wallpapers@.take(j as int));
        if accepted[j] {
            if seen == k {
                proof {
                    lemma_eligible_prefix(wallpapers@, keep, (j + 1) as int);
                    let t = wallpapers@.take(j + 1);
                    assert(t.last() == wallpapers@[j as int]);
                    assert(eligible(t, keep) == eligible(t.drop_last(), keep).push(t.last()));
                    assert(eligible(wallpapers@, keep)[seen as int] == wallpapers@[j as int]);
                }
                let f = wallpapers[j].image_file.file_name.clone();
                assert(f@ == eligible(wallpapers@, keep)[seen as int].image_file.file_name@);
                return Some(f);
            }
            seen = seen + 1;
        }
        proof {
            lemma_eligible_prefix(wallpapers@, keep, (j + 1) as int);
        }
        j = j + 1;
    }
    assert(wallpapers@.take(n as int) =~= wallpapers@);
    None
}

/// The wallpapers eligible in a prefix are the first ones eligible in the
/// whole.
proof fn lemma_eligible_prefix(s: Seq<WallpaperData>, keep: spec_fn(WallpaperData) -> bool, j: int)
    requires
        0 <= j <= s.len(),
    ensures
        eligible(s.take(j), keep).len() <= eligible(s, keep).len(),
        forall|m: int| 0 <= m < eligible(s.take(j), keep).len() ==> #[trigger] eligible(s, keep)[m] == eligible(s.take(j), keep)[m],
    decreases s.len() - j,
{
    if j < s.len() {
        lemma_eligible_prefix(s, keep, j + 1);
        assert(s.take(j + 1).drop_last() =~= s.take(j));
    } else {
        assert(s.take(j) =~= s);
    }
}

/// The wallpapers rated `Liked`, in their order.
pub open spec fn liked_wallpapers(s: Seq<WallpaperData>) -> Seq<WallpaperData> {
    eligible(s, |w: WallpaperData| is_liked(w))
}

/// The wallpapers that suit the range, in their order.
pub open spec fn suitable_wallpapers(s: Seq<WallpaperData>, range: (u32, u32)) -> Seq<WallpaperData> {
    eligible(s, |w: WallpaperData| suits(w, range))
}

/// A random wallpaper rated `Liked`, or `None` when there is none.
pub fn favourites(db: &Database) -> (file: Option<String>)
    ensures
        file is None <==> liked_wallpapers(db.wallpapers@).len() == 0,
        file matches Some(f) ==> exists|k: int|
            0 <= k < liked_wallpapers(db.wallpapers@).len() && f@
                == #[trigger] liked_wallpapers(db.wallpapers@)[k].image_file.file_name@,
{
    let n = db.wallpapers.len();
    let mut accepted: Vec<bool> = Vec::new();
    let mut i: usize = 0;
    while i < n
        invariant
            n == db.wallpapers@.len(),
            i <= n,
            accepted@.len() == i,
            forall|k: int| 0 <= k < i ==> accepted@[k] == is_liked(#[trigger] db.wallpapers@[k]),
        decreases n - i,
    {
        accepted.push(db.wallpapers[i].liked_state == LikedState::Liked);
        i = i + 1;
    }
    pick_random(&db.wallpapers, Ghost(|w: WallpaperData| is_liked(w)), &accepted)
}

/// A random wallpaper rated `Liked` or `Loved` whose brightest fifth suits
/// the hour of `timestamp` (seconds since the epoch), or `None` when there is
/// none.
pub fn smartget(db: &Database, timestamp: i64) -> (file: Option<String>)
    ensures
        ({
            let range = old_brightness_range_at(utc_hour(timestamp));
            &&& file is None <==> suitable_wallpapers(db.wallpapers@, range).len() == 0
            &&& file matches Some(f) ==> exists|k: int|
                0 <= k < suitable_wallpapers(db.wallpapers@, range).len() && f@
                    == #[trigger] suitable_wallpapers(db.wallpapers@, range)[k].image_file.file_name@
        }),
{
    let hour = hour_of_day(timestamp);
    let range: (u32, u32) = if (7 <= hour && hour <= 9) || (17 <= hour && hour <= 21) {
        (0x3e99_999a, 0x3f19_999a)
    } else if 10 <= hour && hour <= 16 {
        (0x3f00_0000, 0x3f80_0000)
    } else {
        (0x0000_0000, 0x3f0c_cccd)
    };
    assert(range == old_brightness_range_at(utc_hour(timestamp)));
    let n = db.wallpapers.len();
    let mut accepted: Vec<bool> = Vec::new();
    let mut i: usize = 0;
    while i < n
        invariant
            n == db.wallpapers@.len(),
            i <= n,
            range == old_brightness_range_at(utc_hour(timestamp)),
            accepted@.len() == i,
            forall|k: int| 0 <= k < i ==> accepted@[k] == suits(#[trigger] db.wallpapers@[k], range),
        decreases n - i,
    {
        let w = &db.wallpapers[i];
        let rated = w.liked_state == LikedState::Liked || w.liked_state == LikedState::Loved;
        accepted.push(rated && bits_in_range(w.color_data.top_20_percent_brightness, range));
        i = i + 1;
    }
    let file = pick_random(&db.wallpapers, Ghost(|w: WallpaperData| suits(w, range)), &accepted);
    assert(suitable_wallpapers(db.wallpapers@, range) == eligible(
        db.wallpapers@,
        |w: WallpaperData| suits(w, range),
    ));
    file
}

/// What a generation request asks for: nothing when its text is empty.
pub fn requested_message(data: String) -> (message: Option<String>)
    ensures
        data@.len() == 0 ==> message is None,
        data@.len() > 0 ==> message == Some(data),
{
    if data.as_str().unicode_len() == 0 {
        None
    } else {
        Some(data)
    }
}

/// Encodes a small RGBA picture as a ThumbHash: calls
/// `thumbhash::rgba_to_thumb_hash`, which asserts that the picture is at
/// most 100 pixels each way and that there are `w * h * 4` bytes. Nothing is
/// claimed of the bytes: the crate computes them with `f32::cos`, whose
/// precision std leaves to the platform, so the same picture need not give
/// the same bytes everywhere.
#[verifier::external_body]
fn thumb_hash(w: usize, h: usize, rgba: &[u8]) -> (hash: Vec<u8>)
    requires
        w <= 100,
        h <= 100,
        rgba@.len() == w * h * 4,
{
    thumbhash::rgba_to_thumb_hash(w, h, rgba)
}

/// The database after storing `r` under its identifier.
pub open spec fn stored(db: Seq<WallpaperData>, r: WallpaperData) -> Seq<WallpaperData> {
    match wallpaper_index(db, r.id) {
        Some(i) => db.update(i, r),
        None => db.push(r),
    }
}

/// The record of a newly generated wallpaper, not yet rated, with the given
/// ThumbHash.
pub fn new_record(
    id: u128,
    datetime: i64,
    prompt_data: PromptData,
    image_file: ImageFile,
    color_data: ColorData,
    thumbnail_file: ImageFile,
    thumbhash: Vec<u8>,
) -> (r: WallpaperData)
    ensures
        r == (WallpaperData {
            id,
            datetime,
            prompt_data,
            image_file,
            color_data,
            thumbnail_file,
            thumbhash,
            liked_state: LikedState::Neutral,
        }),
{
    WallpaperData {
        id,
        datetime,
        prompt_data,
        image_file,
        color_data,
        thumbnail_file,
        thumbhash,
        liked_state: LikedState::Neutral,
    }
}

/// Stores a newly generated wallpaper, not yet rated, with the ThumbHash of
/// its small preview `thumb`, at most 100 pixels each way.
pub fn store_new_wallpaper(
    db: &mut Database,
    id: u128,
    datetime: i64,
    prompt_data: PromptData,
    image_file: ImageFile,
    color_data: ColorData,
    thumbnail_file: ImageFile,
    thumb: &Picture,
)
    requires
        old(db).well_formed(),
        thumb.width <= 100,
        thumb.height <= 100,
        consistent(*thumb),
    ensures
        final(db).well_formed(),
        final(db).comments@ == old(db).comments@,
        final(db).style == old(db).style,
        exists|hash: Vec<u8>|
            final(db).wallpapers@ == stored(
                old(db).wallpapers@,
                WallpaperData {
                    id,
                    datetime,
                    prompt_data,
                    image_file,
                    color_data,
                    thumbnail_file,
                    thumbhash: hash,
                    liked_state: LikedState::Neutral,
                },
            ),
{
    let thumbhash = thumb_hash(thumb.width as usize, thumb.height as usize, thumb.rgba.as_slice());
    let wallpaper = new_record(
        id,
        datetime,
        prompt_data,
        image_file,
        color_data,
        thumbnail_file,
        thumbhash,
    );
    let ghost r = wallpaper;
    insert_wallpaper(db, wallpaper);
    assert(final(db).wallpapers@ == stored(old(db).wallpapers@, r));
}

/// The names of the picture file and the thumbnail file of a wallpaper made
/// at a moment (nanoseconds since the epoch).
pub fn picture_file_names(nanos: i64) -> (names: (String, String))
    ensures
        names.0@ == crate::image::picture_file_name(nanos, ".webp"@),
        names.1@ == crate::image::picture_file_name(nanos, "_thumb.webp"@),
{
    (
        crate::image::wallpaper_file_name(nanos, ".webp"),
        crate::image::wallpaper_file_name(nanos, "_thumb.webp"),
    )
}

/// Where predictions are requested when no model is named.
pub const PREDICTIONS_URL: &'static str = "https://api.replicate.com/v1/predictions";

/// How many times the status of a prediction is asked for, a second apart,
/// before giving up.
pub const TIMEOUT: u64 = 360;

/// Where a prediction is requested: the model's address, or the general
/// address when no model is named.
pub fn prediction_url(model: &str) -> (url: &str)
    ensures
        url@ == if model@.len() == 0 {
            PREDICTIONS_URL@
        } else {
            model@
        },
{
    if model.unicode_len() == 0 {
        PREDICTIONS_URL
    } else {
        model
    }
}

/// What a status reply of a prediction says, as far as polling reads it:
/// its status, its output when that is a string, and the first item of its
/// output when that is a list whose first item is a string.
pub struct PredictionStatus {
    pub status: Option<String>,
    pub output_text: Option<String>,
    pub output_first: Option<String>,
}

/// What polling does after a status reply.
pub enum PollStep {
    /// The prediction is done; its result is at this address.
    Done(String),
    /// Ask again a second later.
    Wait,
    /// Give up: the prediction took too long or failed.
    TimedOut,
}

/// `succeeded`
pub open spec fn succeeded_text() -> Seq<char> {
    seq!['s', 'u', 'c', 'c', 'e', 'e', 'd', 'e', 'd']
}

/// What polling does after the status reply to the ask numbered `polled`
/// (from 0): a succeeded prediction with a string output, or a list output
/// whose first item is a string, is done; otherwise it waits, until the
/// last ask, after which it gives up.
pub fn poll_step(polled: u64, reply: &PredictionStatus) -> (step: PollStep)
    requires
        polled < TIMEOUT,
    ensures
        ({
            let succeeded = reply.status matches Some(s) && s@ == succeeded_text();
            if succeeded && reply.output_text is Some {
                step matches PollStep::Done(u) && reply.output_text == Some(u)
            } else if succeeded && reply.output_first is Some {
                step matches PollStep::Done(u) && reply.output_first == Some(u)
            } else if polled + 1 == TIMEOUT {
                step is TimedOut
            } else {
                step is Wait
            }
        }),
{
    let succeeded = match &reply.status {
        Some(s) => {
            proof {
                reveal_strlit("succeeded");
            }
            let r = crate::text::str_eq(s.as_str(), "succeeded");
            assert("succeeded"@ =~= succeeded_text());
            r
        },
        None => false,
    };
    if succeeded {
        match &reply.output_text {
            Some(u) => return PollStep::Done(u.clone()),
            None => {},
        }
        match &reply.output_first {
            Some(u) => return PollStep::Done(u.clone()),
            None => {},
        }
    }
    if polled + 1 == TIMEOUT {
        PollStep::TimedOut
    } else {
        PollStep::Wait
    }
}

} // verus!
