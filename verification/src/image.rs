//! Which stored wallpaper each picture endpoint serves, and the
//! measurements taken of a new picture.
use crate::brightness::{bits_in_range, in_range, HALF, ONE, POINT_SIX_FIVE, ZERO};
use crate::common::catalog::WallpaperData;
use crate::common::{LikedState, PromptData};
use base64::Engine;
use image::ImageEncoder;
use crate::database::WallpaperChoice;
use crate::sorting::{lemma_sort_ascending, sort_by_key, stable_sort};
use vstd::prelude::*;

verus! {

/// The hour since the Unix epoch that a time in seconds falls in, or 0 for
/// times before the epoch.
pub open spec fn hour_number(timestamp: i64) -> u64 {
    if timestamp < 0 {
        0
    } else {
        (timestamp / 3600) as u64
    }
}

/// The bit mixing step applied to the hour number.
pub open spec fn mix(x: u64) -> u64 {
    let a = (x ^ (x >> 30u64)).wrapping_mul(0xbf58_476d_1ce4_e5b9u64);
    let b = (a ^ (a >> 27u64)).wrapping_mul(0x94d0_49bb_1331_11ebu64);
    b ^ (b >> 31u64)
}

/// The index that the hour of `timestamp` selects among `len` entries.
pub open spec fn hourly_index_of(timestamp: i64, len: usize) -> int {
    ((mix(hour_number(timestamp)) as usize) % len) as int
}

/// An index below `len` that stays the same for a whole hour and jumps
/// about from one hour to the next.
pub fn hourly_index(timestamp: i64, len: usize) -> (index: usize)
    requires
        len > 0,
    ensures
        index == hourly_index_of(timestamp, len),
        index < len,
{
    let hours = timestamp.checked_div_euclid(3600).unwrap();
    let mut x: u64 = if hours < 0 {
        0
    } else {
        hours as u64
    };
    assert(x == hour_number(timestamp));
    x = (x ^ (x >> 30u64)).wrapping_mul(0xbf58_476d_1ce4_e5b9u64);
    x = (x ^ (x >> 27u64)).wrapping_mul(0x94d0_49bb_1331_11ebu64);
    ((x ^ (x >> 31u64)) as usize) % len
}

/// The hour of the day, in UTC, of a time in seconds since the epoch.
pub open spec fn utc_hour(timestamp: i64) -> int {
    (timestamp % 86400) / 3600
}

/// The hour of the day, in UTC, of a time in seconds since the epoch.
pub fn hour_of_day(timestamp: i64) -> (hour: u32)
    ensures
        hour == utc_hour(timestamp),
        hour < 24,
{
    let days = timestamp.checked_div_euclid(86400).unwrap();
    let secs: i128 = (timestamp as i128) - (days as i128) * 86400;
    assert(secs == timestamp % 86400) by (nonlinear_arith)
        requires
            days == timestamp / 86400,
            secs == timestamp - days * 86400,
    ;
    (secs / 3600) as u32
}

/// The brightness a wallpaper should have at an hour of the day: dim at
/// night, middling around sunrise and sunset, bright in the day.
pub open spec fn brightness_range_at(hour: int) -> (u32, u32) {
    if (7 <= hour <= 9) || (17 <= hour <= 21) {
        (HALF, POINT_SIX_FIVE)
    } else if 10 <= hour <= 16 {
        (POINT_SIX_FIVE, ONE)
    } else {
        (ZERO, HALF)
    }
}

/// The brightness ranges of the hours of the day, as bit patterns of `f32`:
/// 0.5 to 0.65 around sunrise (7 to 9) and in the evening (17 to 21), 0.65
/// to 1 in the day (10 to 16), and 0 to 0.5 at night (0 to 6 and 22 to 23).
pub proof fn lemma_brightness_of_the_hours(hour: int)
    requires
        0 <= hour < 24,
    ensures
        (7 <= hour <= 9 || 17 <= hour <= 21) ==> brightness_range_at(hour) == (
            0x3f00_0000u32,
            0x3f26_6666u32,
        ),
        10 <= hour <= 16 ==> brightness_range_at(hour) == (0x3f26_6666u32, 0x3f80_0000u32),
        (hour <= 6 || hour >= 22) ==> brightness_range_at(hour) == (0u32, 0x3f00_0000u32),
{
}

/// The brightness a wallpaper should have at an hour of the day.
pub fn brightness_range_for_hour(hour: u32) -> (range: (u32, u32))
    ensures
        range == brightness_range_at(hour as int),
{
    if (7 <= hour && hour <= 9) || (17 <= hour && hour <= 21) {
        (HALF, POINT_SIX_FIVE)
    } else if 10 <= hour && hour <= 16 {
        (POINT_SIX_FIVE, ONE)
    } else {
        (ZERO, HALF)
    }
}

/// The entries whose brightness lies in `range`, in their order.
pub open spec fn fitting(choices: Seq<WallpaperChoice>, range: (u32, u32)) -> Seq<WallpaperChoice>
    decreases choices.len(),
{
    if choices.len() == 0 {
        choices
    } else if in_range(choices.last().image_brightness, range) {
        fitting(choices.drop_last(), range).push(choices.last())
    } else {
        fitting(choices.drop_last(), range)
    }
}

/// The entries in range, or all of them when none is.
pub open spec fn smart_candidates(choices: Seq<WallpaperChoice>, range: (u32, u32)) -> Seq<
    WallpaperChoice,
> {
    if fitting(choices, range).len() > 0 {
        fitting(choices, range)
    } else {
        choices
    }
}

/// The file `smartget` serves at `timestamp` from the favourite
/// wallpapers: among those whose brightness suits the hour (or all of them
/// when none does), ordered by identifier, the one the hour selects.
pub open spec fn smartget_file(choices: Seq<WallpaperChoice>, timestamp: i64) -> Option<Seq<char>> {
    let ordered = sort_by_key(smart_candidates(choices, brightness_range_at(utc_hour(timestamp))));
    if ordered.len() == 0 {
        None
    } else {
        Some(ordered[hourly_index_of(timestamp, ordered.len() as usize)].image_file@)
    }
}

/// The file `favourites` serves at `timestamp`: the entry the hour selects.
pub open spec fn favourites_file(choices: Seq<WallpaperChoice>, timestamp: i64) -> Option<
    Seq<char>,
> {
    if choices.len() == 0 {
        None
    } else {
        Some(choices[hourly_index_of(timestamp, choices.len() as usize)].image_file@)
    }
}

proof fn lemma_fitting_len(choices: Seq<WallpaperChoice>, range: (u32, u32))
    ensures
        fitting(choices, range).len() <= choices.len(),
    decreases choices.len(),
{
    if choices.len() > 0 {
        lemma_fitting_len(choices.drop_last(), range);
    }
}

/// The hourly choice is the same at every moment of an hour, and is always
/// one of the entries.
pub proof fn lemma_hourly_index_stable(t1: i64, t2: i64, len: usize)
    requires
        len > 0,
        t1 / 3600 == t2 / 3600,
    ensures
        hourly_index_of(t1, len) == hourly_index_of(t2, len),
        0 <= hourly_index_of(t1, len) < len,
{
    let x = mix(hour_number(t1)) as usize;
    assert(x % len < len) by (nonlinear_arith)
        requires
            len > 0,
    ;
}

proof fn lemma_fitting_members(choices: Seq<WallpaperChoice>, range: (u32, u32))
    ensures
        forall|k: int|
            0 <= k < fitting(choices, range).len() ==> choices.contains(
                #[trigger] fitting(choices, range)[k],
            ) && in_range(fitting(choices, range)[k].image_brightness, range),
    decreases choices.len(),
{
    if choices.len() > 0 {
        let t = choices.drop_last();
        lemma_fitting_members(t, range);
        let f = fitting(t, range);
        assert forall|k: int| 0 <= k < f.len() implies choices.contains(#[trigger] f[k]) by {
            let m = choose|m: int| 0 <= m < t.len() && t[m] == f[k];
            assert(choices[m] == f[k]);
        }
        assert(choices[choices.len() - 1] == choices.last());
    }
}

/// The wallpaper `smartget` serves is one of the favourites; there is one
/// whenever there are favourites; and it suits the hour whenever any
/// favourite does.
pub proof fn lemma_smartget_serves_suitable(choices: Seq<WallpaperChoice>, timestamp: i64)
    requires
        choices.len() <= usize::MAX,
    ensures
        smartget_file(choices, timestamp) is Some <==> choices.len() > 0,
        smartget_file(choices, timestamp) matches Some(f) ==> exists|w: WallpaperChoice|
            {
                &&& #[trigger] choices.contains(w)
                &&& w.image_file@ == f
                &&& fitting(choices, brightness_range_at(utc_hour(timestamp))).len() > 0
                    ==> in_range(w.image_brightness, brightness_range_at(utc_hour(timestamp)))
            },
{
    broadcast use vstd::seq_lib::group_to_multiset_ensures;

    let range = brightness_range_at(utc_hour(timestamp));
    let cands = smart_candidates(choices, range);
    lemma_fitting_members(choices, range);
    lemma_fitting_len(choices, range);
    lemma_sort_ascending(cands);
    let ordered = sort_by_key(cands);
    if choices.len() > 0 {
        let n = ordered.len() as usize;
        assert(n > 0);
        let x = mix(hour_number(timestamp)) as usize;
        assert(x % n < n) by (nonlinear_arith)
            requires
                n > 0,
        ;
        let i = hourly_index_of(timestamp, n);
        let w = ordered[i];
        assert(ordered.to_multiset().count(w) > 0);
        assert(cands.contains(w));
        let m = choose|m: int| 0 <= m < cands.len() && cands[m] == w;
        if fitting(choices, range).len() > 0 {
            assert(choices.contains(fitting(choices, range)[m]));
        }
        assert(choices.contains(w));
    }
}

/// The favourite wallpaper to show at `timestamp` (seconds since the
/// epoch), chosen with the time of day in mind; `None` when there is none.
pub fn smartget(choices: Vec<WallpaperChoice>, timestamp: i64) -> (file: Option<String>)
    ensures
        match file {
            Some(f) => smartget_file(choices@, timestamp) == Some(f@),
            None => smartget_file(choices@, timestamp) is None,
        },
{
    let ghost orig = choices@;
    let range = brightness_range_for_hour(hour_of_day(timestamp));
    let n = choices.len();
    let mut has_match = false;
    let mut i: usize = 0;
    while i < n
        invariant
            n == choices@.len(),
            i <= n,
            has_match == (fitting(choices@.take(i as int), range).len() > 0),
        decreases n - i,
    {
        proof {
            lemma_fitting_len(choices@.take(i as int), range);
            assert(choices@.take(i + 1).drop_last() =~= choices@.take(i as int));
        }
        if bits_in_range(choices[i].image_brightness, range) {
            has_match = true;
        }
        i = i + 1;
    }
    assert(choices@.take(n as int) =~= choices@);
    let mut input = choices;
    let mut kept: Vec<WallpaperChoice> = Vec::new();
    let mut j: usize = 0;
    while j < n
        invariant
            n == orig.len(),
            j <= n,
            input@ == orig.skip(j as int),
            has_match ==> kept@ == fitting(orig.take(j as int), range),
            !has_match ==> kept@ == orig.take(j as int),
        decreases n - j,
    {
        let w = input.remove(0);
        assert(w == orig[j as int]);
        assert(input@ =~= orig.skip(j + 1));
        assert(orig.take(j + 1).drop_last() =~= orig.take(j as int));
        assert(orig.take(j + 1) =~= orig.take(j as int).push(w));
        if !has_match || bits_in_range(w.image_brightness, range) {
            kept.push(w);
        }
        j = j + 1;
    }
    assert(orig.take(n as int) =~= orig);
    let ordered = stable_sort(kept);
    if ordered.len() == 0 {
        return None;
    }
    let index = hourly_index(timestamp, ordered.len());
    Some(ordered[index].image_file.clone())
}

/// The favourite wallpaper to show at `timestamp` (seconds since the
/// epoch): the one the hour selects; `None` when there is none.
pub fn favourites(choices: &[WallpaperChoice], timestamp: i64) -> (file: Option<String>)
    ensures
        match file {
            Some(f) => favourites_file(choices@, timestamp) == Some(f@),
            None => favourites_file(choices@, timestamp) is None,
        },
{
    if choices.len() == 0 {
        return None;
    }
    let index = hourly_index(timestamp, choices.len());
    Some(choices[index].image_file.clone())
}

/// The luminance, 0 to 255, of the pixel at `index` of row-major RGBA
/// bytes.
pub open spec fn luma(rgba: Seq<u8>, index: int) -> int {
    (77 * rgba[4 * index] + 150 * rgba[4 * index + 1] + 29 * rgba[4 * index + 2]) / 256
}

/// The number of pixels sampled: every 25th, starting with the first.
pub open spec fn sample_count(pixels: int) -> int {
    (pixels + 24) / 25
}

/// The luminances of the sampled pixels, in order.
pub open spec fn sample_lumas(rgba: Seq<u8>) -> Seq<int> {
    Seq::new(sample_count((rgba.len() / 4) as int) as nat, |k: int| luma(rgba, 25 * k))
}

/// The red, green and blue bytes of the pixel at `index` of row-major RGBA
/// bytes.
pub open spec fn pixel(rgba: Seq<u8>, index: int) -> (u8, u8, u8) {
    (rgba[4 * index], rgba[4 * index + 1], rgba[4 * index + 2])
}

/// How many values of `s` are at most `level`.
pub open spec fn count_at_most(s: Seq<int>, level: int) -> nat
    decreases s.len(),
{
    if s.len() == 0 {
        0
    } else {
        count_at_most(s.drop_last(), level) + if s.last() <= level {
            1nat
        } else {
            0nat
        }
    }
}

/// How many values of `s` equal `level`.
pub open spec fn count_equal(s: Seq<int>, level: int) -> nat
    decreases s.len(),
{
    if s.len() == 0 {
        0
    } else {
        count_equal(s.drop_last(), level) + if s.last() == level {
            1nat
        } else {
            0nat
        }
    }
}

/// `level` is the brightness below which at most four fifths of the samples
/// fall: the least level that more than `len * 4 / 5` samples do not
/// exceed; 0 when there are no samples.
pub open spec fn is_top_20_level(s: Seq<int>, level: int) -> bool {
    if s.len() == 0 {
        level == 0
    } else {
        let target = s.len() * 4 / 5;
        &&& 0 <= level <= 255
        &&& count_at_most(s, level) > target
        &&& (level == 0 || count_at_most(s, level - 1) <= target)
    }
}

proof fn lemma_count_step(s: Seq<int>, level: int)
    ensures
        count_at_most(s, level) == count_at_most(s, level - 1) + count_equal(s, level),
    decreases s.len(),
{
    if s.len() > 0 {
        lemma_count_step(s.drop_last(), level);
    }
}

proof fn lemma_count_bounds(s: Seq<int>)
    requires
        forall|i: int| 0 <= i < s.len() ==> 0 <= #[trigger] s[i] <= 255,
    ensures
        count_at_most(s, -1) == 0,
        count_at_most(s, 255) == s.len(),
    decreases s.len(),
{
    if s.len() > 0 {
        lemma_count_bounds(s.drop_last());
    }
}

proof fn lemma_count_le_len(s: Seq<int>, level: int)
    ensures
        count_at_most(s, level) <= s.len(),
    decreases s.len(),
{
    if s.len() > 0 {
        lemma_count_le_len(s.drop_last(), level);
    }
}

proof fn lemma_count_uniform(s: Seq<int>, v: int, level: int)
    requires
        forall|i: int| 0 <= i < s.len() ==> s[i] == v,
    ensures
        count_at_most(s, level) == if v <= level {
            s.len()
        } else {
            0
        },
    decreases s.len(),
{
    if s.len() > 0 {
        lemma_count_uniform(s.drop_last(), v, level);
    }
}

/// The level of a picture whose pixels all have one colour is that
/// colour's luminance `(77 * red + 150 * green + 29 * blue) / 256`: a pure
/// red picture measures 76, a pure green one 149, a pure blue one 28, and
/// white 255.
pub proof fn lemma_uniform_picture_level(rgba: Seq<u8>, r: u8, g: u8, b: u8, level: int)
    requires
        rgba.len() >= 4,
        forall|p: int| 0 <= p < rgba.len() / 4 ==> #[trigger] pixel(rgba, p) == (r, g, b),
    ensures
        is_top_20_level(sample_lumas(rgba), level) <==> level == (77 * r + 150 * g + 29 * b)
            / 256,
{
    let npix = rgba.len() / 4;
    let s = sample_lumas(rgba);
    let v = (77 * r + 150 * g + 29 * b) / 256;
    assert forall|i: int| 0 <= i < s.len() implies s[i] == v by {
        assert(25 * i < npix) by (nonlinear_arith)
            requires
                0 <= i,
                i < (npix + 24) / 25,
        ;
        assert(pixel(rgba, 25 * i) == (r, g, b));
    }
    assert(s.len() > 0);
    assert(0 <= v <= 255);
    lemma_count_uniform(s, v, level);
    lemma_count_uniform(s, v, level - 1);
    let target = s.len() * 4 / 5;
    assert(target < s.len());
}

/// The brightness level, 0 to 255, that the brightest fifth of the sampled
/// pixels reach, of a picture given as row-major RGBA bytes; the picture's
/// brightness is this level divided by 255.
pub fn top_20_percent_brightness(rgba: &[u8]) -> (level: u8)
    ensures
        is_top_20_level(sample_lumas(rgba@), level as int),
{
    let ghost lumas = sample_lumas(rgba@);
    let npix = rgba.len() / 4;
    let mut histogram: Vec<usize> = vec![0usize; 256];
    let mut samples: usize = 0;
    let mut p: usize = 0;
    while p < npix
        invariant
            npix == rgba@.len() / 4,
            rgba@.len() == rgba.len(),
            p == 25 * samples,
            samples <= lumas.len(),
            p < npix + 25,
            lumas.len() == sample_count(npix as int),
            lumas == sample_lumas(rgba@),
            histogram@.len() == 256,
            forall|b: int| 0 <= b < 256 ==> #[trigger] histogram@[b] == count_equal(lumas.take(samples as int), b),
            forall|b: int| 0 <= b < 256 ==> #[trigger] histogram@[b] <= samples,
        decreases lumas.len() - samples,
    {
        assert(samples < lumas.len()) by (nonlinear_arith)
            requires
                p == 25 * samples,
                p < npix,
                lumas.len() == (npix + 24) / 25,
        ;
        assert(4 * p + 3 < rgba@.len()) by (nonlinear_arith)
            requires
                p < npix,
                npix == rgba@.len() / 4,
        ;
        let r = rgba[4 * p] as usize;
        let g = rgba[4 * p + 1] as usize;
        let b = rgba[4 * p + 2] as usize;
        let lum = (77 * r + 150 * g + 29 * b) / 256;
        assert(lum == lumas[samples as int]);
        proof {
            let t = lumas.take(samples + 1);
            assert(t.drop_last() =~= lumas.take(samples as int));
            assert(t.last() == lum);
        }
        let count = histogram[lum];
        histogram.set(lum, count + 1);
        samples = samples + 1;
        p = p + 25;
    }
    assert(samples == lumas.len()) by (nonlinear_arith)
        requires
            p == 25 * samples,
            p >= npix,
            p < npix + 25,
            lumas.len() == (npix + 24) / 25,
    ;
    assert(lumas.take(samples as int) =~= lumas);
    if samples == 0 {
        return 0;
    }
    assert(samples <= npix) by (nonlinear_arith)
        requires
            samples == (npix + 24) / 25,
            npix >= 1,
    ;
    assert(npix <= usize::MAX / 4) by (nonlinear_arith)
        requires
            npix == rgba@.len() / 4,
            rgba@.len() <= usize::MAX,
    ;
    let target = samples * 4 / 5;
    proof {
        assert forall|i: int| 0 <= i < lumas.len() implies 0 <= #[trigger] lumas[i] <= 255 by {
            let q = 25 * i;
            assert(0 <= 77 * rgba@[4 * q] + 150 * rgba@[4 * q + 1] + 29 * rgba@[4 * q + 2] < 65536);
        }
        lemma_count_bounds(lumas);
    }
    let mut seen: usize = 0;
    let mut level: usize = 0;
    while level < 256
        invariant
            lumas == sample_lumas(rgba@),
            samples == lumas.len(),
            samples > 0,
            target == samples * 4 / 5,
            histogram@.len() == 256,
            forall|b: int| 0 <= b < 256 ==> #[trigger] histogram@[b] == count_equal(lumas, b),
            level <= 256,
            seen == count_at_most(lumas, level - 1),
            seen <= target,
            count_at_most(lumas, 255) == lumas.len(),
        decreases 256 - level,
    {
        proof {
            lemma_count_step(lumas, level as int);
            lemma_count_le_len(lumas, level as int);
        }
        seen = seen + histogram[level];
        assert(seen == count_at_most(lumas, level as int));
        if seen > target {
            assert(is_top_20_level(lumas, level as int));
            let res = level as u8;
            assert(res as int == level as int);
            return res;
        }
        level = level + 1;
    }
    255
}

/// The RFC 3339 form of a moment (nanoseconds since the epoch, UTC), as
/// chrono's `to_rfc3339` writes it.
pub uninterp spec fn rfc3339_text(nanos: i64) -> Seq<char>;

/// Writes a moment in RFC 3339 form: calls `DateTime::from_timestamp_nanos`,
/// which covers every `i64`, and `to_rfc3339`. The result is named
/// `rfc3339_text`.
#[verifier::external_body]
pub(crate) fn rfc3339(nanos: i64) -> (text: String)
    ensures
        text@ == rfc3339_text(nanos),
{
    chrono::DateTime::from_timestamp_nanos(nanos).to_rfc3339()
}

/// The file a picture made at a moment (nanoseconds since the epoch) is
/// stored in: the moment in RFC 3339 form, then the extension.
pub open spec fn picture_file_name(nanos: i64, extension: Seq<char>) -> Seq<char> {
    rfc3339_text(nanos) + extension
}

/// The file a picture made at a moment (nanoseconds since the epoch) is
/// stored in.
pub fn wallpaper_file_name(nanos: i64, extension: &str) -> (name: String)
    ensures
        name@ == picture_file_name(nanos, extension@),
{
    let mut t = rfc3339(nanos);
    t.append(extension);
    t
}

/// The record of a newly generated wallpaper: not yet rated and without a
/// note.
pub fn new_wallpaper(
    id: u128,
    datetime: i64,
    prompt_data: PromptData,
    image_file: String,
    image_width: u32,
    image_height: u32,
    image_brightness: u32,
) -> (w: WallpaperData)
    ensures
        w == (WallpaperData {
            id,
            datetime,
            prompt: prompt_data.prompt,
            shortened_prompt: prompt_data.shortened_prompt,
            image_file,
            image_width,
            image_height,
            image_brightness,
            liked_state: LikedState::Neutral,
            comment: None,
        }),
{
    WallpaperData {
        id,
        datetime,
        prompt: prompt_data.prompt,
        shortened_prompt: prompt_data.shortened_prompt,
        image_file,
        image_width,
        image_height,
        image_brightness,
        liked_state: LikedState::Neutral,
        comment: None,
    }
}

/// The bytes that the standard Base64 alphabet, with padding, decodes a
/// text to; `None` when the text is not valid Base64.
pub uninterp spec fn base64_decoded(text: Seq<char>) -> Option<Seq<u8>>;

/// Decodes standard Base64: calls `general_purpose::STANDARD.decode`. The
/// result is named `base64_decoded`.
#[verifier::external_body]
fn decode_base64(text: &str) -> (bytes: Option<Vec<u8>>)
    ensures
        match bytes {
            Some(b) => base64_decoded(text@) == Some(b@),
            None => base64_decoded(text@) is None,
        },
{
    base64::engine::general_purpose::STANDARD.decode(text).ok()
}

/// Why the image generator's answer holds no picture.
#[derive(Clone, Copy, Debug, PartialEq, Eq, Structural)]
pub enum PayloadError {
    /// The answer lists no pictures.
    Missing,
    /// The first picture is not valid Base64.
    NotBase64,
    /// The bytes are no picture the decoder reads.
    NotPicture,
}

/// The encoded bytes of the first picture of the image generator's answer,
/// which lists the pictures as Base64 texts.
pub fn image_payload(data: &[String]) -> (bytes: Result<Vec<u8>, PayloadError>)
    ensures
        data@.len() == 0 ==> bytes == Err::<Vec<u8>, PayloadError>(PayloadError::Missing),
        data@.len() > 0 ==> match base64_decoded(data@[0]@) {
            Some(b) => (bytes matches Ok(v) && v@ == b),
            None => bytes == Err::<Vec<u8>, PayloadError>(PayloadError::NotBase64),
        },
{
    if data.len() == 0 {
        return Err(PayloadError::Missing);
    }
    match decode_base64(data[0].as_str()) {
        Some(b) => Ok(b),
        None => Err(PayloadError::NotBase64),
    }
}

/// A decoded picture: its size in pixels and its pixels as row-major RGBA
/// bytes.
#[derive(Clone, Debug)]
pub struct Picture {
    pub width: u32,
    pub height: u32,
    pub rgba: Vec<u8>,
}

/// Whether the pixel bytes fit the size: four per pixel.
pub open spec fn consistent(p: Picture) -> bool {
    p.rgba@.len() == p.width * p.height * 4
}

/// Decodes a picture of any format the decoder knows: calls
/// `image::load_from_memory`, then `to_rgba8`, `width`, `height` and
/// `into_raw`; `None` where the bytes are no picture it reads. An RGBA buffer
/// holds four bytes per pixel. Which pixels come out is left unsaid.
#[verifier::external_body]
fn decode_picture(bytes: &[u8]) -> (picture: Option<Picture>)
    ensures
        picture matches Some(p) ==> consistent(p),
{
    let rgba = image::load_from_memory(bytes).ok()?.to_rgba8();
    Some(Picture { width: rgba.width(), height: rgba.height(), rgba: rgba.into_raw() })
}

/// The picture the bytes hold; `NotPicture` where they hold none.
pub fn picture_from_bytes(bytes: &[u8]) -> (res: Result<Picture, PayloadError>)
    ensures
        res matches Ok(p) ==> consistent(p),
        res matches Err(e) ==> e == PayloadError::NotPicture,
{
    match decode_picture(bytes) {
        Some(p) => Ok(p),
        None => Err(PayloadError::NotPicture),
    }
}

/// The first picture of the image generator's answer, which lists the
/// pictures as Base64 texts, decoded.
pub fn picture_from_payload(data: &[String]) -> (res: Result<Picture, PayloadError>)
    ensures
        data@.len() == 0 ==> res == Err::<Picture, PayloadError>(PayloadError::Missing),
        data@.len() > 0 && base64_decoded(data@[0]@) is None ==> res == Err::<
            Picture,
            PayloadError,
        >(PayloadError::NotBase64),
        res matches Ok(p) ==> base64_decoded(data@[0]@) is Some && consistent(p),
        res matches Err(e) ==> (e == PayloadError::NotPicture ==> data@.len() > 0
            && base64_decoded(data@[0]@) is Some),
{
    match image_payload(data) {
        Ok(bytes) => picture_from_bytes(bytes.as_slice()),
        Err(e) => Err(e),
    }
}

/// Scales a picture to fit within `max` by `max` pixels, keeping its aspect
/// ratio: calls `DynamicImage::thumbnail` on the picture rebuilt with
/// `RgbaImage::from_raw`, then `to_rgba8`. The source computes each side as
/// the rounded scaled side and at least one pixel, so both fit within `max`.
/// Which pixels come out is left unsaid.
#[verifier::external_body]
fn scale_to_fit(p: &Picture, max: u32) -> (t: Picture)
    requires
        consistent(*p),
        1 <= p.width,
        1 <= p.height,
        1 <= max,
    ensures
        consistent(t),
        1 <= t.width <= max,
        1 <= t.height <= max,
{
    let source = image::RgbaImage::from_raw(p.width, p.height, p.rgba.clone()).unwrap();
    let rgba = image::DynamicImage::ImageRgba8(source).thumbnail(max, max).to_rgba8();
    Picture { width: rgba.width(), height: rgba.height(), rgba: rgba.into_raw() }
}

/// A small copy of a picture, at most `max` pixels each way, for its
/// ThumbHash.
pub fn thumbnail_rgba(p: &Picture, max: u32) -> (t: Picture)
    requires
        consistent(*p),
        1 <= p.width,
        1 <= p.height,
        1 <= max,
    ensures
        consistent(t),
        1 <= t.width <= max,
        1 <= t.height <= max,
{
    scale_to_fit(p, max)
}

/// Encodes a picture as AVIF: calls `AvifEncoder::new_with_speed_quality`
/// with speed 2 and quality 92 and `write_image` on its RGBA bytes; `None`
/// where the encoder fails. The bytes are left unsaid.
#[verifier::external_body]
fn avif_bytes(p: &Picture) -> (bytes: Option<Vec<u8>>)
    requires
        consistent(*p),
{
    let mut buffer = Vec::new();
    let encoder = image::codecs::avif::AvifEncoder::new_with_speed_quality(&mut buffer, 2, 92);
    encoder.write_image(&p.rgba, p.width, p.height, image::ExtendedColorType::Rgba8).ok()?;
    Some(buffer)
}

/// The AVIF file of a picture, as the database-backed server stores it.
pub fn encode_avif(p: &Picture) -> (bytes: Option<Vec<u8>>)
    requires
        consistent(*p),
{
    avif_bytes(p)
}

/// What the record of a new picture takes from it: its width, its height,
/// and the level its brightest fifth reaches.
pub struct PictureMeasure {
    pub width: u32,
    pub height: u32,
    pub level: u8,
}

/// The width, height and brightest-fifth level of a picture.
pub fn measure_picture(p: &Picture) -> (m: PictureMeasure)
    ensures
        m.width == p.width,
        m.height == p.height,
        is_top_20_level(sample_lumas(p.rgba@), m.level as int),
{
    PictureMeasure {
        width: p.width,
        height: p.height,
        level: top_20_percent_brightness(p.rgba.as_slice()),
    }
}

} // verus!
