//! What the client's screens decide: which records the gallery shows and in
//! what order, which wallpaper the arrow keys move to, what a login reply
//! gives, and what follows a reply to a button's request.
use vstd::prelude::*;

use crate::client::networking::{net_error_text, NetError};
use crate::common::{CommentData, Database, LikedState, StyleVariant, WallpaperData};
use crate::fresh::is_alphanumeric;
use crate::server::auth::{login_outcome, AccountView};
use crate::sorting::{keys_ascending, lemma_sort_ascending, sort_by_key, stable_sort, Keyed};
use crate::text::{cat, owned};

verus! {

/// What the client keeps between runs.
pub struct StoredData {
    /// The session token; empty while logged out.
    pub auth_token: String,
}

impl Default for StoredData {
    fn default() -> (res: Self)
        ensures
            res.auth_token@ == Seq::<char>::empty(),
    {
        StoredData { auth_token: String::new() }
    }
}

/// The flag of liked wallpapers.
pub const LIKED: u32 = 0b00001;

/// The flag of loved wallpapers.
pub const LOVED: u32 = 0b00010;

/// The flag of comments.
pub const COMMENT: u32 = 0b00100;

/// The flag of unrated wallpapers.
pub const NEUTRAL: u32 = 0b01000;

/// The flag of disliked wallpapers.
pub const DISLIKED: u32 = 0b10000;

/// Every flag.
pub const ALL_FLAGS: u32 = 0b11111;

/// Which kinds of records the gallery shows: a set of the flags above.
#[derive(Clone, Copy)]
pub struct StateFilter {
    pub bits: u32,
}

/// Whether every flag of `flag` is set in `bits`.
pub open spec fn has_flags(bits: u32, flag: u32) -> bool {
    bits & flag == flag
}

impl StateFilter {
    /// The filter that shows everything.
    pub fn all() -> (f: StateFilter)
        ensures
            f.bits == ALL_FLAGS,
    {
        StateFilter { bits: ALL_FLAGS }
    }

    /// Whether every flag of `flag` is set.
    pub fn contains(&self, flag: u32) -> (res: bool)
        ensures
            res == has_flags(self.bits, flag),
    {
        self.bits & flag == flag
    }

    /// Flips the flags of `flag`.
    pub fn toggle(&mut self, flag: u32)
        ensures
            final(self).bits == old(self).bits ^ flag,
    {
        self.bits = self.bits ^ flag;
    }
}

/// Toggling a flag twice leaves the filter as it was.
pub proof fn lemma_toggle_twice(bits: u32, flag: u32)
    ensures
        (bits ^ flag) ^ flag == bits,
{
    assert((bits ^ flag) ^ flag == bits) by (bit_vector);
}

/// Toggling one flag flips whether it is shown and leaves the others as they
/// were.
pub proof fn lemma_toggle_flips(bits: u32, flag: u32, other: u32)
    requires
        flag == LIKED || flag == LOVED || flag == COMMENT || flag == NEUTRAL || flag == DISLIKED,
        other == LIKED || other == LOVED || other == COMMENT || other == NEUTRAL || other
            == DISLIKED,
    ensures
        has_flags(bits ^ flag, flag) == !has_flags(bits, flag),
        other != flag ==> has_flags(bits ^ flag, other) == has_flags(bits, other),
{
    assert(((bits ^ flag) & flag == flag) == !(bits & flag == flag)) by (bit_vector)
        requires
            flag == 1u32 || flag == 2u32 || flag == 4u32 || flag == 8u32 || flag == 16u32,
    ;
    assert(other != flag ==> (((bits ^ flag) & other == other) == (bits & other == other)))
        by (bit_vector)
        requires
            flag == 1u32 || flag == 2u32 || flag == 4u32 || flag == 8u32 || flag == 16u32,
            other == 1u32 || other == 2u32 || other == 4u32 || other == 8u32 || other == 16u32,
    ;
}

/// The flag that shows wallpapers rated `state`.
pub open spec fn state_flag(state: LikedState) -> u32 {
    match state {
        LikedState::Liked => LIKED,
        LikedState::Loved => LOVED,
        LikedState::Disliked => DISLIKED,
        LikedState::Neutral => NEUTRAL,
    }
}

/// Each rating has its own flag: liked wallpapers follow bit 0 (1), loved
/// ones bit 1 (2), unrated ones bit 3 (8) and disliked ones bit 4 (16);
/// comments have bit 2 (4), which no rating uses; so no two ratings follow
/// the same flag, and a wallpaper is shown exactly when its own bit is set.
pub proof fn lemma_rating_flags(a: LikedState, b: LikedState, bits: u32)
    ensures
        state_flag(LikedState::Liked) == 1u32,
        state_flag(LikedState::Loved) == 2u32,
        state_flag(LikedState::Neutral) == 8u32,
        state_flag(LikedState::Disliked) == 16u32,
        COMMENT == 4u32,
        state_flag(a) == state_flag(b) ==> a == b,
        state_flag(a) != COMMENT,
        has_flags(bits, state_flag(LikedState::Loved)) <==> bits & 2u32 == 2u32,
{
}

/// Whether the filter shows wallpapers rated `state`.
pub fn shows_state(filter: StateFilter, state: LikedState) -> (res: bool)
    ensures
        res == has_flags(filter.bits, state_flag(state)),
{
    match state {
        LikedState::Liked => filter.contains(LIKED),
        LikedState::Loved => filter.contains(LOVED),
        LikedState::Disliked => filter.contains(DISLIKED),
        LikedState::Neutral => filter.contains(NEUTRAL),
    }
}

/// A record of the gallery: the position of a wallpaper or a comment in the
/// database.
#[derive(Clone, Copy, PartialEq, Eq, Structural)]
pub enum Entry {
    Wallpaper(usize),
    Comment(usize),
}

/// A record of the gallery with the moment it was made.
#[derive(Clone, Copy)]
pub struct TimelineItem {
    pub datetime: i64,
    pub entry: Entry,
}

impl Keyed for TimelineItem {
    open spec fn key(&self) -> int {
        self.datetime as int
    }

    fn key_le(&self, other: &Self) -> (res: bool) {
        self.datetime <= other.datetime
    }
}

/// The wallpapers of `ws` that the filter `bits` shows, in order.
pub open spec fn wallpaper_items(ws: Seq<WallpaperData>, bits: u32) -> Seq<TimelineItem>
    decreases ws.len(),
{
    if ws.len() == 0 {
        Seq::empty()
    } else {
        let rest = wallpaper_items(ws.drop_last(), bits);
        let w = ws.last();
        if has_flags(bits, state_flag(w.liked_state)) {
            rest.push(
                TimelineItem {
                    datetime: w.datetime,
                    entry: Entry::Wallpaper((ws.len() - 1) as usize),
                },
            )
        } else {
            rest
        }
    }
}

/// The comments of `cs`, in order.
pub open spec fn comment_items(cs: Seq<CommentData>) -> Seq<TimelineItem>
    decreases cs.len(),
{
    if cs.len() == 0 {
        Seq::empty()
    } else {
        comment_items(cs.drop_last()).push(
            TimelineItem {
                datetime: cs.last().datetime,
                entry: Entry::Comment((cs.len() - 1) as usize),
            },
        )
    }
}

/// The records the gallery shows before ordering: the shown wallpapers, then
/// the comments where the filter shows comments.
pub open spec fn shown_items(db: Database, bits: u32) -> Seq<TimelineItem> {
    wallpaper_items(db.wallpapers@, bits) + if has_flags(bits, COMMENT) {
        comment_items(db.comments@)
    } else {
        Seq::empty()
    }
}

/// The records of the gallery: the wallpapers and comments the filter shows,
/// ordered by the moment they were made, records made at the same moment
/// keeping the order above. The gallery draws them from the last to the
/// first.
pub fn timeline(db: &Database, filter: StateFilter) -> (items: Vec<TimelineItem>)
    ensures
        items@ == sort_by_key(shown_items(*db, filter.bits)),
        keys_ascending(items@),
{
    let mut items: Vec<TimelineItem> = Vec::new();
    let nw = db.wallpapers.len();
    let mut i: usize = 0;
    while i < nw
        invariant
            nw == db.wallpapers@.len(),
            i <= nw,
            items@ == wallpaper_items(db.wallpapers@.take(i as int), filter.bits),
        decreases nw - i,
    {
        let w = &db.wallpapers[i];
        proof {
            let t = db.wallpapers@.take(i + 1);
            assert(t.drop_last() =~= db.wallpapers@.take(i as int));
            assert(t.last() == *w);
        }
        if shows_state(filter, w.liked_state) {
            items.push(TimelineItem { datetime: w.datetime, entry: Entry::Wallpaper(i) });
        }
        i = i + 1;
    }
    assert(db.wallpapers@.take(nw as int) =~= db.wallpapers@);
    let ghost wallpapers_part = items@;
    if filter.contains(COMMENT) {
        let nc = db.comments.len();
        let mut j: usize = 0;
        while j < nc
            invariant
                nc == db.comments@.len(),
                j <= nc,
                items@ == wallpapers_part + comment_items(db.comments@.take(j as int)),
            decreases nc - j,
        {
            let c = &db.comments[j];
            proof {
                let t = db.comments@.take(j + 1);
                assert(t.drop_last() =~= db.comments@.take(j as int));
                assert(t.last() == *c);
            }
            items.push(TimelineItem { datetime: c.datetime, entry: Entry::Comment(j) });
            assert(items@ =~= wallpapers_part + comment_items(db.comments@.take(j + 1)));
            j = j + 1;
        }
        assert(db.comments@.take(nc as int) =~= db.comments@);
    } else {
        assert(items@ =~= shown_items(*db, filter.bits));
    }
    let sorted = stable_sort(items);
    proof {
        lemma_sort_ascending(shown_items(*db, filter.bits));
    }
    sorted
}

/// Whether a wallpaper made at `t` lies on the chosen side of the moment
/// `current`: later where `newer`, earlier otherwise.
pub open spec fn on_side(t: i64, current: i64, newer: bool) -> bool {
    if newer {
        t > current
    } else {
        t < current
    }
}

/// Whether a moment `a` on the chosen side is nearer to the moment shown
/// than `b`.
pub open spec fn nearer(a: i64, b: i64, newer: bool) -> bool {
    if newer {
        a < b
    } else {
        a > b
    }
}

/// The wallpaper the arrow keys move to from one made at `current`: the
/// nearest one made later (left key, `newer`) or earlier (right key); the
/// first such in the list where several share that moment; `None` where
/// there is none on that side.
pub fn neighbour(wallpapers: &Vec<WallpaperData>, current: i64, newer: bool) -> (index: Option<
    usize,
>)
    ensures
        index is None <==> forall|j: int|
            0 <= j < wallpapers@.len() ==> !on_side(#[trigger] wallpapers@[j].datetime, current, newer),
        index matches Some(i) ==> {
            &&& i < wallpapers@.len()
            &&& on_side(wallpapers@[i as int].datetime, current, newer)
            &&& forall|j: int|
                0 <= j < wallpapers@.len() && on_side(#[trigger] wallpapers@[j].datetime, current, newer)
                    ==> !nearer(wallpapers@[j].datetime, wallpapers@[i as int].datetime, newer)
            &&& forall|j: int|
                0 <= j < i ==> #[trigger] wallpapers@[j].datetime != wallpapers@[i as int].datetime
                    || !on_side(wallpapers@[j].datetime, current, newer)
        },
{
    let n = wallpapers.len();
    let mut best: Option<usize> = None;
    let mut k: usize = 0;
    while k < n
        invariant
            n == wallpapers@.len(),
            k <= n,
            best is None <==> forall|j: int|
                0 <= j < k ==> !on_side(#[trigger] wallpapers@[j].datetime, current, newer),
            best matches Some(i) ==> {
                &&& i < k
                &&& on_side(wallpapers@[i as int].datetime, current, newer)
                &&& forall|j: int|
                    0 <= j < k && on_side(#[trigger] wallpapers@[j].datetime, current, newer)
                        ==> !nearer(wallpapers@[j].datetime, wallpapers@[i as int].datetime, newer)
                &&& forall|j: int|
                    0 <= j < i ==> #[trigger] wallpapers@[j].datetime
                        != wallpapers@[i as int].datetime || !on_side(
                        wallpapers@[j].datetime,
                        current,
                        newer,
                    )
            },
        decreases n - k,
    {
        let t = wallpapers[k].datetime;
        let side = if newer {
            t > current
        } else {
            t < current
        };
        if side {
            let better = match best {
                None => true,
                Some(b) => {
                    let bt = wallpapers[b].datetime;
                    if newer {
                        bt > t
                    } else {
                        bt < t
                    }
                },
            };
            if better {
                best = Some(k);
            }
        }
        k = k + 1;
    }
    best
}

/// A note the client shows for a moment.
pub enum Toast {
    Info(String),
    Success(String),
    Error(String),
}

/// What a login reply comes to: the token to keep, if any, and a note.
pub struct LoginOutcome {
    pub token: Option<String>,
    pub toast: Option<Toast>,
}

/// Whether `p` is the position of the first `|` in `r`.
pub open spec fn is_first_bar(r: Seq<char>, p: int) -> bool {
    &&& 0 <= p < r.len()
    &&& r[p] == '|'
    &&& forall|j: int| 0 <= j < p ==> r[j] != '|'
}

/// The message of a login reply: what comes before its first `|`, if it has
/// one.
pub open spec fn login_reply_message(r: Seq<char>) -> Option<Seq<char>> {
    if exists|p: int| is_first_bar(r, p) {
        Some(r.take(choose|p: int| is_first_bar(r, p)))
    } else {
        None
    }
}

/// The token of a login reply: what follows its first `|`, or the whole
/// reply where it has none.
pub open spec fn login_reply_token(r: Seq<char>) -> Seq<char> {
    if exists|p: int| is_first_bar(r, p) {
        r.skip((choose|p: int| is_first_bar(r, p)) + 1)
    } else {
        r
    }
}

proof fn lemma_first_bar_unique(r: Seq<char>, p: int, q: int)
    requires
        is_first_bar(r, p),
        is_first_bar(r, q),
    ensures
        p == q,
{
    if p < q {
        assert(r[p] != '|');
    } else if q < p {
        assert(r[q] != '|');
    }
}

/// Splits a login reply at its first `|` into the message before it and the
/// token after it; a reply without one is all token.
pub fn split_login_reply(reply: &str) -> (parts: (Option<String>, String))
    ensures
        parts.1@ == login_reply_token(reply@),
        match parts.0 {
            Some(m) => login_reply_message(reply@) == Some(m@),
            None => login_reply_message(reply@) is None,
        },
{
    let n = reply.unicode_len();
    let mut i: usize = 0;
    while i < n
        invariant
            n == reply@.len(),
            i <= n,
            forall|j: int| 0 <= j < i ==> reply@[j] != '|',
        decreases n - i,
    {
        if reply.get_char(i) == '|' {
            let message = owned(reply.substring_char(0, i));
            let token = owned(reply.substring_char(i + 1, n));
            proof {
                assert(is_first_bar(reply@, i as int));
                let p = choose|p: int| is_first_bar(reply@, p);
                lemma_first_bar_unique(reply@, p, i as int);
            }
            assert(message@ =~= reply@.take(i as int));
            assert(token@ =~= reply@.skip(i + 1));
            return (Some(message), token);
        }
        i = i + 1;
    }
    assert(!exists|p: int| is_first_bar(reply@, p));
    (None, owned(reply))
}

/// The token the client keeps from a successful login is the token the
/// server stored, whichever answer the login gave.
pub proof fn lemma_login_reply_gives_token(
    accounts: Seq<AccountView>,
    name: Seq<char>,
    password: Seq<char>,
    token: Seq<char>,
    now: i64,
    account_id: u128,
    salt: Seq<char>,
)
    requires
        forall|i: int| 0 <= i < token.len() ==> is_alphanumeric(#[trigger] token[i]),
    ensures
        match login_outcome(accounts, name, password, token, now, account_id, salt).1 {
            Ok(r) => login_reply_token(r) == token,
            Err(_) => true,
        },
{
    reveal_strlit("Admin Account Created|");
    reveal_strlit("Admin Set|");
    let created = "Admin Account Created|"@;
    let set = "Admin Set|"@;
    match login_outcome(accounts, name, password, token, now, account_id, salt).1 {
        Ok(r) => {
            if r == created + token {
                assert(is_first_bar(r, 21));
                let p = choose|p: int| is_first_bar(r, p);
                lemma_first_bar_unique(r, p, 21);
                assert(r.skip(22) =~= token);
            } else if r == set + token {
                assert(is_first_bar(r, 9));
                let p = choose|p: int| is_first_bar(r, p);
                lemma_first_bar_unique(r, p, 9);
                assert(r.skip(10) =~= token);
            } else {
                assert(r == token);
                assert forall|p: int| !is_first_bar(r, p) by {
                    if 0 <= p < r.len() {
                        assert(is_alphanumeric(r[p]));
                    }
                }
            }
        },
        Err(_) => {},
    }
}

/// What the login screen does with a reply: keeps the token and shows the
/// message before it; on a failure keeps nothing and shows the error.
pub fn login_done(reply: Result<String, NetError>) -> (out: LoginOutcome)
    ensures
        match reply {
            Ok(r) => out.token matches Some(t) && t@ == login_reply_token(r@) && match out.toast {
                Some(Toast::Info(m)) => login_reply_message(r@) == Some(m@),
                None => login_reply_message(r@) is None,
                _ => false,
            },
            Err(e) => out.token is None && (out.toast matches Some(Toast::Error(m)) && m@
                == net_error_text(e)),
        },
{
    match reply {
        Ok(r) => {
            let (message, token) = split_login_reply(r.as_str());
            match message {
                Some(m) => LoginOutcome { token: Some(token), toast: Some(Toast::Info(m)) },
                None => LoginOutcome { token: Some(token), toast: None },
            }
        },
        Err(e) => LoginOutcome { token: None, toast: Some(Toast::Error(e.message())) },
    }
}

/// `Failed to submit request: `
pub open spec fn submit_failure_lead() -> Seq<char> {
    "Failed to submit request: "@
}

/// What follows a reply to a button's request.
pub struct ButtonOutcome {
    pub toast: Option<Toast>,
    /// Whether the database is fetched again.
    pub refresh: bool,
}

/// What follows a reply to a button's request: on a failure a note of it and
/// nothing else; on success the success note, where there is one, and a new
/// fetch of the database.
pub fn button_pressed_result(result: Result<(), NetError>, success: &str) -> (out: ButtonOutcome)
    ensures
        match result {
            Err(e) => !out.refresh && (out.toast matches Some(Toast::Error(m)) && m@
                == submit_failure_lead() + net_error_text(e)),
            Ok(()) => out.refresh && if success@.len() == 0 {
                out.toast is None
            } else {
                out.toast matches Some(Toast::Success(m)) && m@ == success@
            },
        },
{
    match result {
        Err(e) => {
            let m = cat("Failed to submit request: ", e.message().as_str());
            ButtonOutcome { toast: Some(Toast::Error(m)), refresh: false }
        },
        Ok(()) => {
            if success.unicode_len() == 0 {
                ButtonOutcome { toast: None, refresh: true }
            } else {
                ButtonOutcome { toast: Some(Toast::Success(owned(success))), refresh: true }
            }
        },
    }
}

/// The lead of the note that reports a failed update of a style text.
pub open spec fn style_failure_lead(variant: StyleVariant) -> Seq<char> {
    match variant {
        StyleVariant::Style => "Failed to update style: "@,
        StyleVariant::Contents => "Failed to update contents: "@,
        StyleVariant::NegativeContents => "Failed to update negative contents: "@,
    }
}

/// The note that reports a failed update of a style text.
pub fn style_failure(variant: StyleVariant, e: &NetError) -> (m: String)
    ensures
        m@ == style_failure_lead(variant) + net_error_text(*e),
{
    let lead = match variant {
        StyleVariant::Style => "Failed to update style: ",
        StyleVariant::Contents => "Failed to update contents: ",
        StyleVariant::NegativeContents => "Failed to update negative contents: ",
    };
    cat(lead, e.message().as_str())
}

/// Where the fetch of the database stands.
pub enum GetDatabaseState {
    /// Nothing to do.
    Idle,
    /// A fetch is due.
    Wanted,
    /// A fetch is under way.
    InProgress,
    /// A fetch ended with this.
    Done(Result<Database, NetError>),
}

/// What the client does for the fetch of the database on a frame.
pub enum FetchAction {
    Nothing,
    /// Send the request for the database.
    Fetch,
    /// Show this database.
    Show(Database),
    /// Log this failure.
    Report(NetError),
}

/// One frame of the fetch of the database: a due fetch is sent; a finished
/// one is shown or reported, and the state goes back to idle.
pub fn get_database_step(state: GetDatabaseState) -> (out: (GetDatabaseState, FetchAction))
    ensures
        match state {
            GetDatabaseState::Idle => out.0 is Idle && out.1 is Nothing,
            GetDatabaseState::InProgress => out.0 is InProgress && out.1 is Nothing,
            GetDatabaseState::Wanted => out.0 is InProgress && out.1 is Fetch,
            GetDatabaseState::Done(Ok(db)) => out.0 is Idle && out.1 == FetchAction::Show(db),
            GetDatabaseState::Done(Err(e)) => out.0 is Idle && out.1 == FetchAction::Report(e),
        },
{
    match state {
        GetDatabaseState::Idle => (GetDatabaseState::Idle, FetchAction::Nothing),
        GetDatabaseState::InProgress => (GetDatabaseState::InProgress, FetchAction::Nothing),
        GetDatabaseState::Wanted => (GetDatabaseState::InProgress, FetchAction::Fetch),
        GetDatabaseState::Done(Ok(db)) => (GetDatabaseState::Idle, FetchAction::Show(db)),
        GetDatabaseState::Done(Err(e)) => (GetDatabaseState::Idle, FetchAction::Report(e)),
    }
}

/// Whether the client shows the login screen: while it holds no token.
pub fn needs_login(stored: &StoredData) -> (res: bool)
    ensures
        res == (stored.auth_token@.len() == 0),
{
    stored.auth_token.unicode_len() == 0
}

} // verus!
