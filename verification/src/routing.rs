//! The generations in progress, and when the database-backed server makes
//! a new wallpaper by itself.
use crate::common::catalog::{GenerationEvent, GenerationStage};
use vstd::prelude::*;

verus! {

/// How long the database-backed server waits between wallpapers: twelve
/// hours, in microseconds.
pub const NEW_WALLPAPER_INTERVAL: i64 = 43_200_000_000;

/// Whether a new wallpaper is due at `now`: when there is none yet, or more
/// than the interval has passed since the newest.
pub open spec fn generation_due(latest: Option<i64>, now: i64) -> bool {
    match latest {
        None => true,
        Some(t) => now - t > NEW_WALLPAPER_INTERVAL,
    }
}

/// Whether a new wallpaper is due at `now`, given the time of the newest.
pub fn is_generation_due(latest: Option<i64>, now: i64) -> (due: bool)
    ensures
        due == generation_due(latest, now),
{
    match latest {
        None => true,
        Some(t) => (now as i128) - (t as i128) > NEW_WALLPAPER_INTERVAL as i128,
    }
}

/// The index of the event with the identifier, if any.
pub open spec fn event_index(s: Seq<GenerationEvent>, id: u128) -> Option<int>
    decreases s.len(),
{
    if s.len() == 0 {
        None
    } else if s.last().id == id {
        Some(s.len() - 1)
    } else {
        event_index(s.drop_last(), id)
    }
}

proof fn lemma_event_index_found(s: Seq<GenerationEvent>, id: u128, i: int)
    requires
        0 <= i < s.len(),
        s[i].id == id,
        forall|k: int| i < k < s.len() ==> s[k].id != id,
    ensures
        event_index(s, id) == Some(i),
    decreases s.len(),
{
    if i < s.len() - 1 {
        lemma_event_index_found(s.drop_last(), id, i);
    }
}

proof fn lemma_event_index_none(s: Seq<GenerationEvent>, id: u128)
    requires
        forall|k: int| 0 <= k < s.len() ==> s[k].id != id,
    ensures
        event_index(s, id) is None,
    decreases s.len(),
{
    if s.len() > 0 {
        lemma_event_index_none(s.drop_last(), id);
    }
}

proof fn lemma_event_index_props(s: Seq<GenerationEvent>, id: u128)
    ensures
        event_index(s, id) matches Some(i) ==> 0 <= i < s.len() && s[i].id == id && forall|
            k: int,
        |
            i < k < s.len() ==> s[k].id != id,
        event_index(s, id) is None ==> forall|k: int| 0 <= k < s.len() ==> s[k].id != id,
    decreases s.len(),
{
    if s.len() > 0 && s.last().id != id {
        let t = s.drop_last();
        lemma_event_index_props(t, id);
        assert forall|k: int| 0 <= k < t.len() implies s[k] == t[k] by {}
        if let Some(i) = event_index(t, id) {
            assert forall|k: int| i < k < s.len() implies s[k].id != id by {
                if k < t.len() {
                    assert(s[k] == t[k]);
                }
            }
        }
    }
}

/// After a generation reports a stage, its event is found with that stage,
/// and its start time is the time it was first reported (`now` for a new
/// one); every other event stays as it was.
pub proof fn lemma_updated_event_found(
    s: Seq<GenerationEvent>,
    id: u128,
    stage: GenerationStage,
    now: i64,
)
    ensures
        ({
            let after = updated_events(s, id, stage, now);
            &&& event_index(after, id) matches Some(i) && after[i].stage == stage && after[i].start_time
                == match event_index(s, id) {
                Some(j) => s[j].start_time,
                None => now,
            }
            &&& forall|k: int| 0 <= k < s.len() && s[k].id != id ==> after.contains(#[trigger] s[k])
        }),
{
    lemma_event_index_props(s, id);
    let after = updated_events(s, id, stage, now);
    match event_index(s, id) {
        Some(j) => {
            lemma_event_index_found(after, id, j);
            assert forall|k: int| 0 <= k < s.len() && s[k].id != id implies after.contains(#[trigger] s[k]) by {
                assert(after[k] == s[k]);
            }
        },
        None => {
            lemma_event_index_found(after, id, s.len() as int);
            assert forall|k: int| 0 <= k < s.len() && s[k].id != id implies after.contains(#[trigger] s[k]) by {
                assert(after[k] == s[k]);
            }
        },
    }
}

/// After a generation is forgotten, no event has its identifier, and every
/// other event stays.
pub proof fn lemma_removed_event_gone(s: Seq<GenerationEvent>, id: u128)
    requires
        event_ids_unique(s),
    ensures
        event_index(removed_events(s, id), id) is None,
        forall|k: int|
            0 <= k < s.len() && s[k].id != id ==> removed_events(s, id).contains(#[trigger] s[k]),
{
    lemma_event_index_props(s, id);
    let after = removed_events(s, id);
    match event_index(s, id) {
        Some(j) => {
            assert forall|k: int| 0 <= k < after.len() implies after[k].id != id by {
                if k < j {
                    assert(after[k] == s[k]);
                } else {
                    assert(after[k] == s[k + 1]);
                }
            }
            assert forall|k: int| 0 <= k < s.len() && s[k].id != id implies after.contains(#[trigger] s[k]) by {
                if k < j {
                    assert(after[k] == s[k]);
                } else {
                    assert(after[k - 1] == s[k]);
                }
            }
        },
        None => {
            assert forall|k: int| 0 <= k < s.len() && s[k].id != id implies after.contains(#[trigger] s[k]) by {
                assert(after[k] == s[k]);
            }
        },
    }
    lemma_event_index_none(after, id);
}

/// The generations in progress, each under its own identifier, in the
/// order they were started.
#[derive(Debug)]
pub struct GenerationEvents {
    events: Vec<GenerationEvent>,
}

impl View for GenerationEvents {
    type V = Seq<GenerationEvent>;

    closed spec fn view(&self) -> Seq<GenerationEvent> {
        self.events@
    }
}

/// Whether no two events share an identifier.
pub open spec fn event_ids_unique(s: Seq<GenerationEvent>) -> bool {
    forall|i: int, j: int| 0 <= i < s.len() && 0 <= j < s.len() && i != j ==> s[i].id != s[j].id
}

/// The events after a generation reports a stage at `now`: a known event
/// gets the new stage and keeps its start time; an unknown one is added,
/// started at `now`.
pub open spec fn updated_events(
    s: Seq<GenerationEvent>,
    id: u128,
    stage: GenerationStage,
    now: i64,
) -> Seq<GenerationEvent> {
    match event_index(s, id) {
        Some(i) => s.update(i, GenerationEvent { stage, ..s[i] }),
        None => s.push(GenerationEvent { id, start_time: now, stage }),
    }
}

/// The events without the one with the identifier.
pub open spec fn removed_events(s: Seq<GenerationEvent>, id: u128) -> Seq<GenerationEvent> {
    match event_index(s, id) {
        Some(i) => s.remove(i),
        None => s,
    }
}

impl GenerationEvents {
    /// Each identifier names at most one event.
    pub open spec fn well_formed(&self) -> bool {
        event_ids_unique(self@)
    }

    /// No generations.
    pub fn new() -> (res: Self)
        ensures
            res@ == Seq::<GenerationEvent>::empty(),
            res.well_formed(),
    {
        GenerationEvents { events: Vec::new() }
    }

    fn find(&self, id: u128) -> (index: Option<usize>)
        ensures
            event_index(self@, id) == match index {
                Some(i) => Some(i as int),
                None => None,
            },
            index matches Some(i) ==> i < self@.len() && self@[i as int].id == id,
            index is None ==> forall|k: int| 0 <= k < self@.len() ==> #[trigger] self@[k].id != id,
    {
        let n = self.events.len();
        let mut i: usize = n;
        while i > 0
            invariant
                n == self.events@.len(),
                i <= n,
                forall|k: int| i <= k < n ==> self.events@[k].id != id,
            decreases i,
        {
            if self.events[i - 1].id == id {
                proof {
                    lemma_event_index_found(self.events@, id, i - 1);
                }
                return Some(i - 1);
            }
            i = i - 1;
        }
        proof {
            lemma_event_index_none(self.events@, id);
        }
        None
    }

    /// Records that generation `id` reached `stage` at time `now`, and
    /// hands back the events as they now stand.
    pub fn update_generation_event(&mut self, id: u128, stage: GenerationStage, now: i64) -> (snapshot: Vec<GenerationEvent>)
        requires
            old(self).well_formed(),
        ensures
            final(self).well_formed(),
            final(self)@ == updated_events(old(self)@, id, stage, now),
            snapshot@ == final(self)@,
    {
        match self.find(id) {
            Some(i) => {
                let mut event = self.events.remove(i);
                event.stage = stage;
                self.events.insert(i, event);
                assert(self.events@ =~= updated_events(old(self)@, id, stage, now));
            },
            None => {
                self.events.push(GenerationEvent { id, start_time: now, stage });
            },
        }
        assert(event_ids_unique(self.events@));
        self.snapshot()
    }

    /// Forgets generation `id`, and hands back the events as they now stand.
    pub fn remove_generation_event(&mut self, id: u128) -> (snapshot: Vec<GenerationEvent>)
        requires
            old(self).well_formed(),
        ensures
            final(self).well_formed(),
            final(self)@ == removed_events(old(self)@, id),
            forall|k: int| 0 <= k < final(self)@.len() ==> #[trigger] final(self)@[k].id != id,
            snapshot@ == final(self)@,
    {
        match self.find(id) {
            Some(i) => {
                self.events.remove(i);
                assert(event_ids_unique(self.events@));
            },
            None => {},
        }
        self.snapshot()
    }

    /// Copies of the events, in order.
    pub fn snapshot(&self) -> (snapshot: Vec<GenerationEvent>)
        ensures
            snapshot@ == self@,
    {
        let mut out: Vec<GenerationEvent> = Vec::new();
        let n = self.events.len();
        let mut i: usize = 0;
        while i < n
            invariant
                n == self.events@.len(),
                i <= n,
                out@ == self.events@.take(i as int),
            decreases n - i,
        {
            out.push(self.events[i].duplicate());
            assert(out@ =~= self.events@.take(i + 1));
            i = i + 1;
        }
        assert(self.events@.take(n as int) =~= self.events@);
        out
    }
}

} // verus!
