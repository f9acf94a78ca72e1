//! Comments and style texts of the file-backed server.
use crate::common::{comment_ids_unique, CommentData, Database, StyleVariant};
use crate::fresh::{new_uuid, now_micros};
use vstd::prelude::*;

verus! {

/// The index of the comment with the identifier, if any.
pub open spec fn comment_index(s: Seq<CommentData>, id: u128) -> Option<int>
    decreases s.len(),
{
    if s.len() == 0 {
        None
    } else if s.last().id == id {
        Some(s.len() - 1)
    } else {
        comment_index(s.drop_last(), id)
    }
}

/// The comments with `c` stored under its identifier: replacing the comment
/// that has it, or added at the end.
pub open spec fn put_comment(s: Seq<CommentData>, c: CommentData) -> Seq<CommentData> {
    match comment_index(s, c.id) {
        Some(i) => s.update(i, c),
        None => s.push(c),
    }
}

/// The comments without any that has the identifier.
pub open spec fn without_comment(s: Seq<CommentData>, id: u128) -> Seq<CommentData>
    decreases s.len(),
{
    if s.len() == 0 {
        s
    } else if s.last().id == id {
        without_comment(s.drop_last(), id)
    } else {
        without_comment(s.drop_last(), id).push(s.last())
    }
}

proof fn lemma_comment_index_found(s: Seq<CommentData>, id: u128, i: int)
    requires
        0 <= i < s.len(),
        s[i].id == id,
        forall|k: int| i < k < s.len() ==> s[k].id != id,
    ensures
        comment_index(s, id) == Some(i),
    decreases s.len(),
{
    if i < s.len() - 1 {
        lemma_comment_index_found(s.drop_last(), id, i);
    }
}

proof fn lemma_comment_index_none(s: Seq<CommentData>, id: u128)
    requires
        forall|k: int| 0 <= k < s.len() ==> s[k].id != id,
    ensures
        comment_index(s, id) is None,
    decreases s.len(),
{
    if s.len() > 0 {
        lemma_comment_index_none(s.drop_last(), id);
    }
}

proof fn lemma_without_comment_ids(s: Seq<CommentData>, id: u128)
    requires
        comment_ids_unique(s),
    ensures
        comment_ids_unique(without_comment(s, id)),
        forall|k: int| 0 <= k < without_comment(s, id).len() ==> #[trigger] without_comment(s, id)[k].id != id,
        forall|k: int| 0 <= k < without_comment(s, id).len() ==> s.contains(#[trigger] without_comment(s, id)[k]),
    decreases s.len(),
{
    if s.len() > 0 {
        let t = s.drop_last();
        lemma_without_comment_ids(t, id);
        let w = without_comment(t, id);
        assert forall|k: int| 0 <= k < w.len() implies s.contains(#[trigger] w[k]) by {
            let m = choose|m: int| 0 <= m < t.len() && t[m] == w[k];
            assert(s[m] == w[k]);
        }
        if s.last().id != id {
            let r = w.push(s.last());
            assert forall|a: int, b: int| 0 <= a < r.len() && 0 <= b < r.len() && a != b implies r[a].id != r[b].id by {
                if a == r.len() - 1 && b < w.len() {
                    let m = choose|m: int| 0 <= m < t.len() && t[m] == w[b];
                    assert(s[m] == w[b]);
                } else if b == r.len() - 1 && a < w.len() {
                    let m = choose|m: int| 0 <= m < t.len() && t[m] == w[a];
                    assert(s[m] == w[a]);
                }
            }
            assert forall|k: int| 0 <= k < r.len() implies s.contains(#[trigger] r[k]) by {
                if k == r.len() - 1 {
                    assert(s[s.len() - 1] == r[k]);
                } else {
                    assert(w.contains(r[k]));
                    assert(s.contains(w[k]));
                }
            }
        }
    }
}

proof fn lemma_comment_index_props(s: Seq<CommentData>, id: u128)
    ensures
        comment_index(s, id) matches Some(i) ==> 0 <= i < s.len() && s[i].id == id && forall|
            k: int,
        |
            i < k < s.len() ==> s[k].id != id,
    decreases s.len(),
{
    if s.len() > 0 && s.last().id != id {
        let t = s.drop_last();
        lemma_comment_index_props(t, id);
        if let Some(i) = comment_index(t, id) {
            assert forall|k: int| i < k < s.len() implies s[k].id != id by {
                if k < t.len() {
                    assert(s[k] == t[k]);
                }
            }
        }
    }
}

proof fn lemma_without_comment_content(s: Seq<CommentData>, id: u128)
    ensures
        forall|k: int|
            0 <= k < without_comment(s, id).len() ==> #[trigger] without_comment(s, id)[k].id
                != id,
        forall|k: int| 0 <= k < s.len() && s[k].id != id ==> without_comment(s, id).contains(#[trigger] s[k]),
    decreases s.len(),
{
    if s.len() > 0 {
        let t = s.drop_last();
        lemma_without_comment_content(t, id);
        let w = without_comment(t, id);
        assert forall|k: int| 0 <= k < s.len() && s[k].id != id implies without_comment(s, id).contains(#[trigger] s[k]) by {
            if k < s.len() - 1 {
                assert(t[k] == s[k]);
                assert(w.contains(t[k]));
                let m = choose|m: int| 0 <= m < w.len() && w[m] == t[k];
                if s.last().id != id {
                    assert(w.push(s.last())[m] == s[k]);
                }
            } else {
                assert(w.push(s.last())[w.len() as int] == s[k]);
            }
        }
    }
}

/// A stored comment is found under its identifier afterwards.
pub proof fn lemma_put_comment_found(s: Seq<CommentData>, c: CommentData)
    ensures
        comment_index(put_comment(s, c), c.id) matches Some(i) && put_comment(s, c)[i] == c,
{
    lemma_comment_index_props(s, c.id);
    match comment_index(s, c.id) {
        Some(i) => {
            let u = s.update(i, c);
            lemma_comment_index_found(u, c.id, i);
        },
        None => {
            let u = s.push(c);
            lemma_comment_index_found(u, c.id, s.len() as int);
        },
    }
}

/// A removed comment is gone, and every comment with another identifier
/// stays.
pub proof fn lemma_removed_comment_gone(s: Seq<CommentData>, id: u128)
    ensures
        comment_index(without_comment(s, id), id) is None,
        forall|k: int| 0 <= k < s.len() && s[k].id != id ==> without_comment(s, id).contains(#[trigger] s[k]),
{
    lemma_without_comment_content(s, id);
    lemma_comment_index_none(without_comment(s, id), id);
}

/// Stores a comment with the given identifier and time; a comment that has
/// the identifier already is replaced.
#[verifier::loop_isolation(false)]
pub fn add_comment_with(db: &mut Database, id: u128, datetime: i64, comment: String)
    requires
        old(db).well_formed(),
    ensures
        final(db).well_formed(),
        final(db).comments@ == put_comment(
            old(db).comments@,
            CommentData { id, datetime, comment },
        ),
        final(db).wallpapers@ == old(db).wallpapers@,
        final(db).style == old(db).style,
{
    let ghost before = db.comments@;
    let entry = CommentData { id, datetime, comment };
    let n = db.comments.len();
    let mut i: usize = n;
    while i > 0
        invariant
            n == db.comments@.len(),
            db.comments@ == before,
            before == old(db).comments@,
            db.wallpapers@ == old(db).wallpapers@,
            db.style == old(db).style,
            old(db).well_formed(),
            i <= n,
            forall|k: int| i <= k < n ==> db.comments@[k].id != id,
        decreases i,
    {
        if db.comments[i - 1].id == id {
            proof {
                lemma_comment_index_found(before, id, i - 1);
            }
            db.comments.set(i - 1, entry);
            assert(comment_ids_unique(db.comments@));
            return;
        }
        i = i - 1;
    }
    proof {
        lemma_comment_index_none(before, id);
    }
    db.comments.push(entry);
    assert(comment_ids_unique(db.comments@));
}

/// Stores a new comment, with a fresh identifier and the current time.
pub fn add(db: &mut Database, comment: String)
    requires
        old(db).well_formed(),
    ensures
        final(db).well_formed(),
        exists|id: u128, datetime: i64|
            final(db).comments@ == put_comment(
                old(db).comments@,
                CommentData { id, datetime, comment },
            ),
        final(db).wallpapers@ == old(db).wallpapers@,
        final(db).style == old(db).style,
{
    let id = new_uuid();
    let datetime = now_micros();
    let ghost c = comment;
    add_comment_with(db, id, datetime, comment);
    assert(final(db).comments@ == put_comment(old(db).comments@, CommentData { id, datetime, comment: c }));
}

/// Deletes the comment with the identifier, if there is one.
#[verifier::loop_isolation(false)]
pub fn remove(db: &mut Database, id: u128)
    requires
        old(db).well_formed(),
    ensures
        final(db).well_formed(),
        final(db).comments@ == without_comment(old(db).comments@, id),
        final(db).wallpapers@ == old(db).wallpapers@,
        final(db).style == old(db).style,
{
    let ghost before = db.comments@;
    let mut rest = Vec::new();
    std::mem::swap(&mut rest, &mut db.comments);
    let n = rest.len();
    let mut kept: Vec<CommentData> = Vec::new();
    let mut i: usize = 0;
    while i < n
        invariant
            n == before.len(),
            i <= n,
            rest@ == before.skip(i as int),
            kept@ == without_comment(before.take(i as int), id),
        decreases n - i,
    {
        let c = rest.remove(0);
        assert(c == before[i as int]);
        assert(rest@ =~= before.skip(i + 1));
        assert(before.take(i + 1).drop_last() =~= before.take(i as int));
        if c.id != id {
            kept.push(c);
        }
        i = i + 1;
    }
    assert(before.take(n as int) =~= before);
    proof {
        lemma_without_comment_ids(before, id);
    }
    db.comments = kept;
}

/// The style text a variant names.
pub open spec fn style_text(db: Database, variant: StyleVariant) -> Seq<char> {
    match variant {
        StyleVariant::Style => db.style.style@,
        StyleVariant::Contents => db.style.contents@,
        StyleVariant::NegativeContents => db.style.negative_contents@,
    }
}

/// Replaces the style text that `variant` names.
pub fn styles(db: &mut Database, variant: StyleVariant, text: String)
    ensures
        style_text(*final(db), variant) == text@,
        forall|v: StyleVariant| v != variant ==> style_text(*final(db), v) == style_text(*old(db), v),
        final(db).wallpapers@ == old(db).wallpapers@,
        final(db).comments@ == old(db).comments@,
{
    match variant {
        StyleVariant::Style => db.style.style = text,
        StyleVariant::Contents => db.style.contents = text,
        StyleVariant::NegativeContents => db.style.negative_contents = text,
    }
}

} // verus!
