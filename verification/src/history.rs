//! The newest lines of a timeline, newest first.
use crate::sorting::{lemma_sort_map, sort_by, stable_sort, Keyed};
use crate::text::views;
use vstd::prelude::*;

verus! {

/// A line of a history and the time it belongs to.
#[derive(Clone, Debug)]
pub struct TimedLine {
    pub time: i64,
    pub text: String,
}

impl Keyed for TimedLine {
    open spec fn key(&self) -> int {
        self.time as int
    }

    fn key_le(&self, other: &Self) -> (res: bool) {
        self.time <= other.time
    }
}

/// The time and text of a line.
pub open spec fn line_view(l: TimedLine) -> (int, Seq<char>) {
    (l.time as int, l.text@)
}

/// The texts of the newest `limit` entries of a timeline, newest first; of
/// entries with equal times, the later one in the timeline counts as newer.
pub open spec fn newest_texts(timeline: Seq<(int, Seq<char>)>, limit: int) -> Seq<Seq<char>> {
    let sorted = sort_by(timeline, |p: (int, Seq<char>)| p.0);
    let count = if sorted.len() < limit {
        sorted.len() as int
    } else {
        limit
    };
    sorted.reverse().take(count).map_values(|p: (int, Seq<char>)| p.1)
}

/// The texts of the newest `limit` lines, newest first: the lines sorted by
/// time (stably), reversed, and cut to `limit`.
pub fn newest_first(entries: Vec<TimedLine>, limit: usize) -> (texts: Vec<String>)
    ensures
        views(texts@) == newest_texts(entries@.map_values(|l: TimedLine| line_view(l)), limit as int),
{
    let ghost lv = |l: TimedLine| line_view(l);
    let ghost unsorted = entries@;
    let sorted = stable_sort(entries);
    proof {
        lemma_sort_map(unsorted, |t: TimedLine| t.key(), lv, |p: (int, Seq<char>)| p.0);
    }
    let ghost sv = sorted@.map_values(lv);
    assert(sv == sort_by(unsorted.map_values(lv), |p: (int, Seq<char>)| p.0));
    let n = sorted.len();
    let count = if n < limit {
        n
    } else {
        limit
    };
    let mut recent: Vec<String> = Vec::new();
    let mut k: usize = 0;
    while k < count
        invariant
            n == sorted@.len(),
            count <= n,
            k <= count,
            sv == sorted@.map_values(lv),
            lv == (|l: TimedLine| line_view(l)),
            views(recent@) == sv.reverse().take(k as int).map_values(|p: (int, Seq<char>)| p.1),
        decreases count - k,
    {
        let ghost before = recent@;
        let line = sorted[n - 1 - k].text.clone();
        proof {
            assert(sv[n - 1 - k] == lv(sorted@[n - 1 - k]));
            assert(sv.reverse()[k as int] == sv[n - 1 - k]);
            assert(line@ == sv.reverse()[k as int].1);
        }
        recent.push(line);
        assert(views(recent@) =~= views(before).push(line@));
        assert(views(recent@) =~= sv.reverse().take(k + 1).map_values(|p: (int, Seq<char>)| p.1));
        k = k + 1;
    }
    recent
}

} // verus!
