//! When the file-backed server makes a new wallpaper.
use crate::common::Database;
use crate::server::image::latest_index;
use vstd::prelude::*;

verus! {

/// How long the file-backed server waits between wallpapers: six hours, in
/// microseconds.
pub const NEW_WALLPAPER_INTERVAL: i64 = 21_600_000_000;

/// Whether a new wallpaper is due at `now`: more than the interval has
/// passed since the newest one. With no wallpapers the newest time is taken
/// to be `now`, so none is due.
pub open spec fn wallpaper_due(db: Database, now: i64) -> bool {
    db.wallpapers@.len() > 0 && now - db.wallpapers@[latest_index(db.wallpapers@)].datetime
        > NEW_WALLPAPER_INTERVAL
}

/// How long it has been since the newest wallpaper at `now`; zero when there
/// are none.
pub open spec fn time_since_latest(db: Database, now: i64) -> int {
    if db.wallpapers@.len() > 0 {
        now - db.wallpapers@[latest_index(db.wallpapers@)].datetime
    } else {
        0
    }
}

/// How long it has been since the newest wallpaper, and whether a new one
/// is due.
pub fn start_server_step(db: &Database, now: i64) -> (res: (i128, bool))
    ensures
        res.0 == time_since_latest(*db, now),
        res.1 == wallpaper_due(*db, now),
{
    let n = db.wallpapers.len();
    if n == 0 {
        return (0, false);
    }
    let mut best: usize = 0;
    let mut i: usize = 1;
    while i < n
        invariant
            n == db.wallpapers@.len(),
            1 <= i <= n,
            best == latest_index(db.wallpapers@.take(i as int)),
            best < i,
        decreases n - i,
    {
        proof {
            let t = db.wallpapers@.take(i + 1);
            assert(t.drop_last() =~= db.wallpapers@.take(i as int));
        }
        if db.wallpapers[i].datetime >= db.wallpapers[best].datetime {
            best = i;
        }
        i = i + 1;
    }
    assert(db.wallpapers@.take(n as int) =~= db.wallpapers@);
    let since = (now as i128) - (db.wallpapers[best].datetime as i128);
    (since, since > NEW_WALLPAPER_INTERVAL as i128)
}

} // verus!
