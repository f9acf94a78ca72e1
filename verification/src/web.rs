//! The decisions of the web gallery: filters, labels and the handling of
//! generation events.
use crate::brightness::{bits_in_range, in_range, HALF, ONE, POINT_SIX_FIVE, ZERO};
use crate::common::catalog::{GenerationEvent, GenerationStage, WallpaperData};
use crate::common::LikedState;
use crate::server::{count_text, count_with_unit, DAY, HOUR, MINUTE, WEEK};
use crate::text::{decimal, decimal_text};
use vstd::prelude::*;

verus! {

/// The colour behind a neutral label, as red, green and blue.
pub const NEUTRAL_COLOR: &'static str = "10, 10, 10";

/// The colour of a loved wallpaper's labels.
pub const LOVED_COLOR: &'static str = "160, 100, 10";

/// The colour of a liked wallpaper's labels.
pub const LIKED_COLOR: &'static str = "20, 80, 30";

/// The colour of a disliked wallpaper's labels.
pub const DISLIKED_COLOR: &'static str = "90, 15, 15";

/// The colour of an active filter button.
pub const FILTER_ACTIVE_COLOR: &'static str = "160, 100, 10";

/// The part of the day a wallpaper's brightness suits.
#[derive(Clone, Copy, Debug, PartialEq, Eq, Structural)]
pub enum TimeOfDay {
    Night,
    Sunrise,
    Day,
}

/// The brightness range of a part of the day, as bit patterns of `f32`.
pub open spec fn time_range(t: TimeOfDay) -> (u32, u32) {
    match t {
        TimeOfDay::Night => (ZERO, HALF),
        TimeOfDay::Sunrise => (HALF, POINT_SIX_FIVE),
        TimeOfDay::Day => (POINT_SIX_FIVE, ONE),
    }
}

impl TimeOfDay {
    /// The brightness range the part of the day wants: 0 to 0.5 at night,
    /// 0.5 to 0.65 around sunrise, 0.65 to 1 in the day.
    pub fn brightness_range(self) -> (range: (u32, u32))
        ensures
            range == time_range(self),
    {
        match self {
            TimeOfDay::Night => (ZERO, HALF),
            TimeOfDay::Sunrise => (HALF, POINT_SIX_FIVE),
            TimeOfDay::Day => (POINT_SIX_FIVE, ONE),
        }
    }
}

/// The colour of a rating's labels; none for `Neutral`.
pub open spec fn rating_color(state: LikedState) -> Option<Seq<char>> {
    match state {
        LikedState::Loved => Some(LOVED_COLOR@),
        LikedState::Liked => Some(LIKED_COLOR@),
        LikedState::Disliked => Some(DISLIKED_COLOR@),
        LikedState::Neutral => None,
    }
}

/// The colour of a rating's labels; none for `Neutral`.
pub fn like_color(state: LikedState) -> (color: Option<&'static str>)
    ensures
        match color {
            Some(c) => rating_color(state) == Some(c@),
            None => rating_color(state) is None,
        },
{
    match state {
        LikedState::Loved => Some(LOVED_COLOR),
        LikedState::Liked => Some(LIKED_COLOR),
        LikedState::Disliked => Some(DISLIKED_COLOR),
        LikedState::Neutral => None,
    }
}

/// Whether a wallpaper passes the gallery's filters: the rating filter, if
/// set, must match; the time filter, if set, must contain its brightness.
pub open spec fn passes_filters(
    w: WallpaperData,
    like_filter: Option<LikedState>,
    time_filter: Option<TimeOfDay>,
) -> bool {
    &&& (like_filter matches Some(f) ==> w.liked_state == f)
    &&& (time_filter matches Some(t) ==> in_range(w.image_brightness, time_range(t)))
}

/// The wallpapers that pass the filters, in their order.
pub open spec fn filtered(
    s: Seq<WallpaperData>,
    like_filter: Option<LikedState>,
    time_filter: Option<TimeOfDay>,
) -> Seq<WallpaperData>
    decreases s.len(),
{
    if s.len() == 0 {
        s
    } else if passes_filters(s.last(), like_filter, time_filter) {
        filtered(s.drop_last(), like_filter, time_filter).push(s.last())
    } else {
        filtered(s.drop_last(), like_filter, time_filter)
    }
}

/// The gallery shows exactly the wallpapers that pass the filters: each one
/// it shows passes, each one that passes is shown, and with no filter set
/// every wallpaper is shown.
pub proof fn lemma_filtered_exactly(
    s: Seq<WallpaperData>,
    like_filter: Option<LikedState>,
    time_filter: Option<TimeOfDay>,
)
    ensures
        forall|k: int|
            0 <= k < filtered(s, like_filter, time_filter).len() ==> passes_filters(
                #[trigger] filtered(s, like_filter, time_filter)[k],
                like_filter,
                time_filter,
            ),
        forall|k: int|
            0 <= k < s.len() && passes_filters(s[k], like_filter, time_filter) ==> filtered(
                s,
                like_filter,
                time_filter,
            ).contains(#[trigger] s[k]),
        filtered(s, None, None) == s,
    decreases s.len(),
{
    if s.len() > 0 {
        let t = s.drop_last();
        lemma_filtered_exactly(t, like_filter, time_filter);
        let f = filtered(t, like_filter, time_filter);
        assert forall|k: int|
            0 <= k < s.len() && passes_filters(s[k], like_filter, time_filter) implies filtered(
            s,
            like_filter,
            time_filter,
        ).contains(#[trigger] s[k]) by {
            if k < s.len() - 1 {
                assert(s[k] == t[k]);
                assert(f.contains(t[k]));
                let m = choose|m: int| 0 <= m < f.len() && f[m] == t[k];
                if passes_filters(s.last(), like_filter, time_filter) {
                    assert(f.push(s.last())[m] == s[k]);
                }
            } else {
                assert(f.push(s.last())[f.len() as int] == s[k]);
            }
        }
        assert(filtered(s, None, None) =~= s);
    }
}

/// The gallery's wallpapers that pass the filters, in their order.
pub fn gallery_items(
    items: Vec<WallpaperData>,
    like_filter: Option<LikedState>,
    time_filter: Option<TimeOfDay>,
) -> (shown: Vec<WallpaperData>)
    ensures
        shown@ == filtered(items@, like_filter, time_filter),
{
    let ghost orig = items@;
    let mut input = items;
    let mut shown: Vec<WallpaperData> = Vec::new();
    let n = input.len();
    let mut i: usize = 0;
    while i < n
        invariant
            n == orig.len(),
            i <= n,
            input@ == orig.skip(i as int),
            shown@ == filtered(orig.take(i as int), like_filter, time_filter),
        decreases n - i,
    {
        let w = input.remove(0);
        assert(w == orig[i as int]);
        assert(input@ =~= orig.skip(i + 1));
        assert(orig.take(i + 1).drop_last() =~= orig.take(i as int));
        let like_ok = match like_filter {
            Some(f) => w.liked_state == f,
            None => true,
        };
        let time_ok = match time_filter {
            Some(t) => bits_in_range(w.image_brightness, t.brightness_range()),
            None => true,
        };
        if like_ok && time_ok {
            shown.push(w);
        }
        i = i + 1;
    }
    assert(orig.take(n as int) =~= orig);
    shown
}

/// A filter button press: pressing the active choice clears the filter,
/// pressing another selects it.
pub open spec fn toggled_filter<T>(current: Option<T>, choice: T) -> Option<T> {
    if current == Some(choice) {
        None
    } else {
        Some(choice)
    }
}

/// A press of a rating filter button.
pub fn toggle_like_filter(current: Option<LikedState>, choice: LikedState) -> (next: Option<LikedState>)
    ensures
        next == toggled_filter(current, choice),
{
    if current == Some(choice) {
        None
    } else {
        Some(choice)
    }
}

/// A press of a time filter button.
pub fn toggle_time_filter(current: Option<TimeOfDay>, choice: TimeOfDay) -> (next: Option<TimeOfDay>)
    ensures
        next == toggled_filter(current, choice),
{
    if current == Some(choice) {
        None
    } else {
        Some(choice)
    }
}

/// The day, month, year and 12-hour time of a moment (microseconds since
/// the epoch, UTC), as chrono writes it with `%d/%m/%Y %-I%P`; `None` for a
/// moment chrono cannot represent.
pub uninterp spec fn date_text(micros: i64) -> Option<Seq<char>>;

/// Writes a moment as a date: calls `DateTime::from_timestamp_micros` and
/// formats with `%d/%m/%Y %-I%P`. The result is named `date_text`.
#[verifier::external_body]
fn date_label(micros: i64) -> (label: Option<String>)
    ensures
        match label {
            Some(l) => date_text(micros) == Some(l@),
            None => date_text(micros) is None,
        },
{
    match chrono::DateTime::from_timestamp_micros(micros) {
        Some(d) => Some(d.format("%d/%m/%Y %-I%P").to_string()),
        None => None,
    }
}

/// How old a wallpaper made at `datetime` reads at `now` (both in
/// microseconds): its date when it is a week old or more or lies in the
/// future, otherwise whole days, hours or minutes ago, or "just now".
pub open spec fn age_text(datetime: i64, now: i64) -> Option<Seq<char>> {
    let diff = now - datetime;
    if diff >= WEEK || diff <= -1000 {
        date_text(datetime)
    } else if diff >= DAY {
        Some(count_text((diff / (DAY as int)) as nat, "day"@) + " ago"@)
    } else if diff >= HOUR {
        Some(count_text((diff / (HOUR as int)) as nat, "hour"@) + " ago"@)
    } else if diff >= MINUTE {
        Some(count_text((diff / (MINUTE as int)) as nat, "minute"@) + " ago"@)
    } else {
        Some("just now"@)
    }
}

/// How old a wallpaper made at `datetime` reads at `now`.
pub fn format_age(datetime: i64, now: i64) -> (text: Option<String>)
    ensures
        match text {
            Some(t) => age_text(datetime, now) == Some(t@),
            None => age_text(datetime, now) is None,
        },
{
    let diff: i128 = (now as i128) - (datetime as i128);
    if diff >= WEEK as i128 || diff <= -1000 {
        return date_label(datetime);
    }
    let unit_text = if diff >= DAY as i128 {
        let mut t = count_with_unit((diff / (DAY as i128)) as u64, "day");
        t.append(" ago");
        t
    } else if diff >= HOUR as i128 {
        let mut t = count_with_unit((diff / (HOUR as i128)) as u64, "hour");
        t.append(" ago");
        t
    } else if diff >= MINUTE as i128 {
        let mut t = count_with_unit((diff / (MINUTE as i128)) as u64, "minute");
        t.append(" ago");
        t
    } else {
        String::from_str("just now")
    };
    Some(unit_text)
}

/// Whether an event reports a received picture.
pub open spec fn is_received(e: GenerationEvent) -> bool {
    e.stage is ReceivedImage
}

/// Whether a snapshot holds an event with the identifier.
pub open spec fn in_snapshot(snapshot: Seq<GenerationEvent>, id: u128) -> bool {
    exists|k: int| 0 <= k < snapshot.len() && #[trigger] snapshot[k].id == id
}

/// Whether a snapshot reports a received picture for the identifier.
pub open spec fn received_in(snapshot: Seq<GenerationEvent>, id: u128) -> bool {
    exists|k: int| 0 <= k < snapshot.len() && #[trigger] snapshot[k].id == id && is_received(snapshot[k])
}

/// Whether taking in `snapshot` with `handled` already handled refreshes the
/// gallery for the identifier: its picture was received and it was not
/// handled yet.
pub open spec fn refreshes(handled: Seq<u128>, snapshot: Seq<GenerationEvent>, id: u128) -> bool {
    received_in(snapshot, id) && !handled.contains(id)
}

/// Whether the identifier is handled after taking in `snapshot`: it is still
/// in the snapshot, and was handled before or its picture was received.
pub open spec fn keeps_handled(handled: Seq<u128>, snapshot: Seq<GenerationEvent>, id: u128) -> bool {
    in_snapshot(snapshot, id) && (handled.contains(id) || received_in(snapshot, id))
}

/// A received picture refreshes the gallery once: once a snapshot has been
/// taken in, taking in the same snapshot again refreshes nothing.
pub proof fn lemma_snapshot_refreshes_once(
    first: Seq<u128>,
    after: Seq<u128>,
    snapshot: Seq<GenerationEvent>,
    id: u128,
)
    requires
        forall|x: u128| #[trigger] after.contains(x) <==> keeps_handled(first, snapshot, x),
    ensures
        !refreshes(after, snapshot, id),
{
    if received_in(snapshot, id) {
        assert(after.contains(id));
    }
}

/// Pressing a filter button twice in a row, when no filter or that same one
/// was active, leaves the filter as it was.
pub proof fn lemma_filter_press_twice<T>(current: Option<T>, choice: T)
    requires
        current is None || current == Some(choice),
    ensures
        toggled_filter(toggled_filter(current, choice), choice) == current,
{
}

/// Takes in a snapshot of the generation events. Each generation that
/// reports a received picture and was not handled before is handled now:
/// its identifier is handed back, once, so that the gallery is refreshed
/// for it. Generations no longer in the snapshot are forgotten.
pub fn take_snapshot(handled: &mut Vec<u128>, snapshot: &[GenerationEvent]) -> (refresh: Vec<u128>)
    requires
        old(handled)@.no_duplicates(),
    ensures
        final(handled)@.no_duplicates(),
        refresh@.no_duplicates(),
        forall|id: u128|
            #![trigger refresh@.contains(id)]
            refresh@.contains(id) <==> refreshes(old(handled)@, snapshot@, id),
        forall|id: u128|
            #![trigger final(handled)@.contains(id)]
            final(handled)@.contains(id) <==> keeps_handled(old(handled)@, snapshot@, id),
{
    let ghost before = handled@;
    let mut refresh: Vec<u128> = Vec::new();
    let n = snapshot.len();
    let mut i: usize = 0;
    while i < n
        invariant
            n == snapshot@.len(),
            i <= n,
            handled@.no_duplicates(),
            refresh@.no_duplicates(),
            forall|id: u128|
                #![trigger refresh@.contains(id)]
                refresh@.contains(id) <==> (received_in(snapshot@.take(i as int), id)
                    && !before.contains(id)),
            forall|id: u128|
                #![trigger handled@.contains(id)]
                handled@.contains(id) <==> (before.contains(id) || received_in(
                    snapshot@.take(i as int),
                    id,
                )),
        decreases n - i,
    {
        let e = &snapshot[i];
        let received = match e.stage {
            GenerationStage::ReceivedImage => true,
            _ => false,
        };
        proof {
            let t = snapshot@.take(i + 1);
            assert(t[i as int] == *e);
            assert forall|id: u128| received_in(t, id) <==> (received_in(snapshot@.take(i as int), id) || (
            id == e.id && received)) by {
                if received_in(t, id) {
                    let k = choose|k: int| 0 <= k < t.len() && #[trigger] t[k].id == id && is_received(t[k]);
                    if k < i {
                        assert(snapshot@.take(i as int)[k] == t[k]);
                    }
                }
                if received_in(snapshot@.take(i as int), id) {
                    let k = choose|k: int| 0 <= k < i && #[trigger] snapshot@.take(i as int)[k].id == id && is_received(snapshot@.take(i as int)[k]);
                    assert(t[k] == snapshot@.take(i as int)[k]);
                }
                if id == e.id && received {
                    assert(t[i as int].id == id);
                }
            }
        }
        let ghost h_pre = handled@;
        let ghost r_pre = refresh@;
        let mut added = false;
        if received {
            let mut known = false;
            let m = handled.len();
            let mut j: usize = 0;
            while j < m
                invariant
                    m == handled@.len(),
                    j <= m,
                    known == (exists|k: int| 0 <= k < j && handled@[k] == e.id),
                decreases m - j,
            {
                if handled[j] == e.id {
                    known = true;
                }
                j = j + 1;
            }
            assert(known == handled@.contains(e.id));
            if !known {
                assert(!refresh@.contains(e.id));
                handled.push(e.id);
                refresh.push(e.id);
                added = true;
                assert(handled@.no_duplicates()) by {
                    assert forall|a: int, b: int| 0 <= a < b < handled@.len() implies handled@[a] != handled@[b] by {
                        if b == handled@.len() - 1 {
                            assert(h_pre[a] == handled@[a]);
                        } else {
                            assert(h_pre[a] == handled@[a] && h_pre[b] == handled@[b]);
                        }
                    }
                }
                assert(refresh@.no_duplicates()) by {
                    assert forall|a: int, b: int| 0 <= a < b < refresh@.len() implies refresh@[a] != refresh@[b] by {
                        if b == refresh@.len() - 1 {
                            assert(r_pre[a] == refresh@[a]);
                        } else {
                            assert(r_pre[a] == refresh@[a] && r_pre[b] == refresh@[b]);
                        }
                    }
                }
            }
        }
        proof {
            assert(added ==> handled@ == h_pre.push(e.id) && refresh@ == r_pre.push(e.id));
            assert(!added ==> handled@ == h_pre && refresh@ == r_pre);
            assert(added <==> (received && !h_pre.contains(e.id)));
            assert forall|id: u128| #[trigger] handled@.contains(id) <==> (h_pre.contains(id) || (added && id == e.id)) by {
                if added {
                    if handled@.contains(id) {
                        let k = choose|k: int| 0 <= k < handled@.len() && handled@[k] == id;
                        if k < h_pre.len() {
                            assert(h_pre[k] == id);
                        }
                    }
                    if h_pre.contains(id) {
                        let k = choose|k: int| 0 <= k < h_pre.len() && h_pre[k] == id;
                        assert(handled@[k] == id);
                    }
                    if id == e.id {
                        assert(handled@[h_pre.len() as int] == id);
                    }
                }
            }
            assert forall|id: u128| #[trigger] refresh@.contains(id) <==> (r_pre.contains(id) || (added && id == e.id)) by {
                if added {
                    if refresh@.contains(id) {
                        let k = choose|k: int| 0 <= k < refresh@.len() && refresh@[k] == id;
                        if k < r_pre.len() {
                            assert(r_pre[k] == id);
                        }
                    }
                    if r_pre.contains(id) {
                        let k = choose|k: int| 0 <= k < r_pre.len() && r_pre[k] == id;
                        assert(refresh@[k] == id);
                    }
                    if id == e.id {
                        assert(refresh@[r_pre.len() as int] == id);
                    }
                }
            }
            assert forall|id: u128| #[trigger] handled@.contains(id) <==> (before.contains(id) || received_in(
                snapshot@.take(i + 1),
                id,
            )) by {
                assert(h_pre.contains(id) <==> (before.contains(id) || received_in(snapshot@.take(i as int), id)));
            }
            assert forall|id: u128| #[trigger] refresh@.contains(id) <==> (received_in(snapshot@.take(i + 1), id)
                && !before.contains(id)) by {
                assert(r_pre.contains(id) <==> (received_in(snapshot@.take(i as int), id) && !before.contains(id)));
                assert(h_pre.contains(id) <==> (before.contains(id) || received_in(snapshot@.take(i as int), id)));
            }
        }
        i = i + 1;
    }
    assert(snapshot@.take(n as int) =~= snapshot@);
    let ghost merged = handled@;
    assert(forall|id: u128| #[trigger] merged.contains(id) <==> (before.contains(id) || received_in(snapshot@, id)));
    let mut kept: Vec<u128> = Vec::new();
    let h = handled.len();
    let mut j: usize = 0;
    while j < h
        invariant
            n == snapshot@.len(),
            h == handled@.len(),
            merged == handled@,
            merged.no_duplicates(),
            j <= h,
            kept@.no_duplicates(),
            forall|id: u128|
                #![trigger kept@.contains(id)]
                kept@.contains(id) <==> (in_snapshot(snapshot@, id) && exists|k: int| 0 <= k < j && merged[k] == id),
            forall|k: int| 0 <= k < kept@.len() ==> exists|m: int| 0 <= m < j && merged[m] == #[trigger] kept@[k],
        decreases h - j,
    {
        let id = handled[j];
        let mut present = false;
        let mut k: usize = 0;
        while k < n
            invariant
                n == snapshot@.len(),
                k <= n,
                present == (exists|q: int| 0 <= q < k && #[trigger] snapshot@[q].id == id),
            decreases n - k,
        {
            if snapshot[k].id == id {
                present = true;
            }
            k = k + 1;
        }
        assert(present == in_snapshot(snapshot@, id));
        if present {
            let ghost prev = kept@;
            kept.push(id);
            proof {
                assert forall|x: u128| #[trigger] kept@.contains(x) <==> (prev.contains(x) || x == id) by {
                    if kept@.contains(x) {
                        let q = choose|q: int| 0 <= q < kept@.len() && kept@[q] == x;
                        if q < prev.len() {
                            assert(prev[q] == x);
                        }
                    }
                    if prev.contains(x) {
                        let q = choose|q: int| 0 <= q < prev.len() && prev[q] == x;
                        assert(kept@[q] == x);
                    }
                    if x == id {
                        assert(kept@[prev.len() as int] == x);
                    }
                }
                assert(!prev.contains(id)) by {
                    if prev.contains(id) {
                        let q = choose|q: int| 0 <= q < prev.len() && prev[q] == id;
                        let m = choose|m: int| 0 <= m < j && merged[m] == #[trigger] prev[q];
                        assert(merged[m] == merged[j as int]);
                    }
                }
                assert forall|q: int| 0 <= q < kept@.len() implies exists|m: int| 0 <= m < j + 1 && merged[m] == #[trigger] kept@[q] by {
                    if q < prev.len() {
                        assert(kept@[q] == prev[q]);
                    } else {
                        assert(merged[j as int] == kept@[q]);
                    }
                }
            }
        }
        j = j + 1;
    }
    proof {
        assert forall|id: u128| #[trigger] kept@.contains(id) <==> (in_snapshot(snapshot@, id) && (
        before.contains(id) || received_in(snapshot@, id))) by {
            assert(merged.contains(id) <==> (before.contains(id) || received_in(snapshot@, id)));
            if merged.contains(id) {
                let k = choose|k: int| 0 <= k < merged.len() && merged[k] == id;
                assert(exists|k: int| 0 <= k < h && merged[k] == id);
            }
        }
    }
    *handled = kept;
    refresh
}

/// A signed whole number in decimal.
pub open spec fn signed_decimal_text(n: int) -> Seq<char> {
    if n < 0 {
        "-"@ + decimal_text((-n) as nat)
    } else {
        decimal_text(n as nat)
    }
}

/// The whole seconds in a length of time in microseconds, rounded toward
/// zero.
pub open spec fn whole_seconds(micros: int) -> int {
    if micros >= 0 {
        micros / 1_000_000
    } else {
        -((-micros) / 1_000_000)
    }
}

/// The line shown for a generation in progress at `now`.
pub open spec fn event_line(event: GenerationEvent, now: i64) -> Seq<char> {
    let elapsed = signed_decimal_text(whole_seconds(now - event.start_time));
    match event.stage {
        GenerationStage::WaitingForPrompt => "Generating image started "@ + elapsed
            + "s ago, creating prompt..."@,
        GenerationStage::ReceivedPrompt { prompt } => "Generating image started "@ + elapsed
            + "s ago, prompt: \""@ + prompt@ + "\""@,
        GenerationStage::ReceivedImage => "Image received! Refreshing gallery..."@,
        GenerationStage::Failed { reason } => "Failed: "@ + reason@,
    }
}

/// A signed whole number in decimal.
pub fn signed_decimal(n: i128) -> (text: String)
    requires
        -0x1_0000_0000_0000_0000 < n < 0x1_0000_0000_0000_0000,
    ensures
        text@ == signed_decimal_text(n as int),
{
    if n < 0 {
        let mut t = String::from_str("-");
        t.append(decimal((-n) as u64).as_str());
        t
    } else {
        decimal(n as u64)
    }
}

/// The line shown for a generation in progress at `now`.
pub fn event_text(event: &GenerationEvent, now: i64) -> (text: String)
    ensures
        text@ == event_line(*event, now),
{
    let diff: i128 = (now as i128) - (event.start_time as i128);
    let secs: i128 = if diff >= 0 {
        diff / 1_000_000
    } else {
        -((-diff) / 1_000_000)
    };
    match &event.stage {
        GenerationStage::WaitingForPrompt => {
            let mut t = String::from_str("Generating image started ");
            t.append(signed_decimal(secs).as_str());
            t.append("s ago, creating prompt...");
            t
        },
        GenerationStage::ReceivedPrompt { prompt } => {
            let mut t = String::from_str("Generating image started ");
            t.append(signed_decimal(secs).as_str());
            t.append("s ago, prompt: \"");
            t.append(prompt.as_str());
            t.append("\"");
            t
        },
        GenerationStage::ReceivedImage => String::from_str("Image received! Refreshing gallery..."),
        GenerationStage::Failed { reason } => {
            let mut t = String::from_str("Failed: ");
            t.append(reason.as_str());
            t
        },
    }
}

} // verus!
