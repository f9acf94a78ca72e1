//! A stable sort by an integer key, as `slice::sort_by_key` orders.
use vstd::prelude::*;

verus! {

/// A value ordered by an integer key.
pub trait Keyed: Sized {
    /// The key the value is ordered by.
    spec fn key(&self) -> int;

    /// Whether this value's key is at most the other's.
    fn key_le(&self, other: &Self) -> (res: bool)
        ensures
            res == (self.key() <= other.key()),
    ;
}

/// `s` with `x` placed before the first element whose key is greater than
/// its own, so that `x` comes after every element with an equal key.
pub open spec fn insert_by<A>(s: Seq<A>, x: A, key: spec_fn(A) -> int) -> Seq<A>
    decreases s.len(),
{
    if s.len() == 0 {
        seq![x]
    } else if key(x) < key(s[0]) {
        seq![x] + s
    } else {
        seq![s[0]] + insert_by(s.drop_first(), x, key)
    }
}

/// `s` ordered by key, elements with equal keys keeping their order.
pub open spec fn sort_by<A>(s: Seq<A>, key: spec_fn(A) -> int) -> Seq<A>
    decreases s.len(),
{
    if s.len() == 0 {
        s
    } else {
        insert_by(sort_by(s.drop_last(), key), s.last(), key)
    }
}

/// `s` ordered by the values' own keys, stably.
pub open spec fn sort_by_key<T: Keyed>(s: Seq<T>) -> Seq<T> {
    sort_by(s, |t: T| t.key())
}

/// Whether the keys never decrease along `s`.
pub open spec fn keys_ascending<T: Keyed>(s: Seq<T>) -> bool {
    forall|i: int, j: int| 0 <= i <= j < s.len() ==> s[i].key() <= s[j].key()
}

/// Inserting at the first position whose key is greater than the new
/// element's is splitting the sequence there.
proof fn lemma_insert_at<A>(s: Seq<A>, x: A, key: spec_fn(A) -> int, p: int)
    requires
        0 <= p <= s.len(),
        forall|k: int| 0 <= k < p ==> key(s[k]) <= key(x),
        p == s.len() || key(x) < key(s[p]),
    ensures
        insert_by(s, x, key) == s.take(p) + seq![x] + s.skip(p),
    decreases p,
{
    if p == 0 {
        if s.len() == 0 {
            assert(s.take(0) + seq![x] + s.skip(0) =~= seq![x]);
        } else {
            assert(s.take(0) + seq![x] + s.skip(0) =~= seq![x] + s);
        }
    } else {
        let t = s.drop_first();
        lemma_insert_at(t, x, key, p - 1);
        assert(s.take(p) + seq![x] + s.skip(p) =~= seq![s[0]] + (t.take(p - 1) + seq![x] + t.skip(
            p - 1,
        )));
    }
}

/// Inserting into an ascending sequence keeps it ascending and adds the one
/// element.
pub proof fn lemma_insert_ascending<T: Keyed>(s: Seq<T>, x: T)
    requires
        keys_ascending(s),
    ensures
        keys_ascending(insert_by(s, x, |t: T| t.key())),
        insert_by(s, x, |t: T| t.key()).to_multiset() == s.to_multiset().insert(x),
        insert_by(s, x, |t: T| t.key()).len() == s.len() + 1,
    decreases s.len(),
{
    broadcast use vstd::seq_lib::group_to_multiset_ensures;

    let key = |t: T| t.key();
    if s.len() == 0 {
        assert(seq![x] =~= Seq::<T>::empty().push(x));
    } else if x.key() < s[0].key() {
        assert(seq![x] + s =~= s.insert(0, x));
        assert(s.insert(0, x).to_multiset() == s.to_multiset().insert(x));
    } else {
        let t = s.drop_first();
        lemma_insert_ascending(t, x);
        let r = insert_by(t, x, key);
        assert(seq![s[0]] + r =~= r.insert(0, s[0]));
        assert(r.insert(0, s[0]).to_multiset() == r.to_multiset().insert(s[0]));
        assert(t =~= s.remove(0));
        assert(s.remove(0).to_multiset() == s.to_multiset().remove(s[0]));
        let q = seq![s[0]] + r;
        assert forall|i: int, j: int| 0 <= i <= j < q.len() implies q[i].key() <= q[j].key() by {
            if i == 0 && j > 0 {
                let m = j - 1;
                if r[m] != x {
                    assert(r.to_multiset().contains(r[m]));
                    assert(t.to_multiset().insert(x).contains(r[m]));
                    assert(t.to_multiset().contains(r[m]));
                    assert(t.contains(r[m]));
                }
            }
        }
    }
}

/// The sorted sequence is ascending by key and holds the same elements.
pub proof fn lemma_sort_ascending<T: Keyed>(s: Seq<T>)
    ensures
        keys_ascending(sort_by_key(s)),
        sort_by_key(s).to_multiset() == s.to_multiset(),
        sort_by_key(s).len() == s.len(),
    decreases s.len(),
{
    broadcast use vstd::seq_lib::group_to_multiset_ensures;

    if s.len() > 0 {
        lemma_sort_ascending(s.drop_last());
        lemma_insert_ascending(sort_by_key(s.drop_last()), s.last());
        assert(s =~= s.drop_last().push(s.last()));
    }
}

/// Inserting and then mapping is mapping and then inserting, when the
/// mapping keeps the keys.
proof fn lemma_insert_map<A, B>(
    s: Seq<A>,
    x: A,
    ka: spec_fn(A) -> int,
    f: spec_fn(A) -> B,
    kb: spec_fn(B) -> int,
)
    requires
        forall|a: A| #[trigger] kb(f(a)) == ka(a),
    ensures
        insert_by(s, x, ka).map_values(f) == insert_by(s.map_values(f), f(x), kb),
    decreases s.len(),
{
    if s.len() == 0 {
        assert(seq![x].map_values(f) =~= seq![f(x)]);
    } else if ka(x) < ka(s[0]) {
        assert(kb(f(x)) == ka(x) && kb(f(s[0])) == ka(s[0]));
        assert((seq![x] + s).map_values(f) =~= seq![f(x)] + s.map_values(f));
    } else {
        assert(kb(f(x)) == ka(x) && kb(f(s[0])) == ka(s[0]));
        lemma_insert_map(s.drop_first(), x, ka, f, kb);
        assert(s.map_values(f).drop_first() =~= s.drop_first().map_values(f));
        assert((seq![s[0]] + insert_by(s.drop_first(), x, ka)).map_values(f) =~= seq![f(s[0])]
            + insert_by(s.drop_first(), x, ka).map_values(f));
    }
}

/// Sorting and then mapping is mapping and then sorting, when the mapping
/// keeps the keys.
pub proof fn lemma_sort_map<A, B>(
    s: Seq<A>,
    ka: spec_fn(A) -> int,
    f: spec_fn(A) -> B,
    kb: spec_fn(B) -> int,
)
    requires
        forall|a: A| #[trigger] kb(f(a)) == ka(a),
    ensures
        sort_by(s, ka).map_values(f) == sort_by(s.map_values(f), kb),
    decreases s.len(),
{
    if s.len() > 0 {
        lemma_sort_map(s.drop_last(), ka, f, kb);
        lemma_insert_map(sort_by(s.drop_last(), ka), s.last(), ka, f, kb);
        assert(s.map_values(f).drop_last() =~= s.drop_last().map_values(f));
    }
}

/// Sorts `v` by key, stably: what `sort_by_key` on a slice leaves.
pub fn stable_sort<T: Keyed>(v: Vec<T>) -> (res: Vec<T>)
    ensures
        res@ == sort_by_key(v@),
{
    let ghost orig = v@;
    let ghost key = |t: T| t.key();
    let mut input = v;
    let mut out: Vec<T> = Vec::new();
    let n = input.len();
    let mut i: usize = 0;
    while i < n
        invariant
            n == orig.len(),
            i <= n,
            input@ == orig.skip(i as int),
            out@ == sort_by_key(orig.take(i as int)),
            key == (|t: T| t.key()),
        decreases n - i,
    {
        proof {
            lemma_sort_ascending(orig.take(i as int));
        }
        let x = input.remove(0);
        assert(x == orig[i as int]);
        assert(input@ =~= orig.skip(i + 1));
        let mut p: usize = 0;
        while p < out.len() && out[p].key_le(&x)
            invariant
                p <= out@.len(),
                forall|k: int| 0 <= k < p ==> out@[k].key() <= x.key(),
            decreases out@.len() - p,
        {
            p = p + 1;
        }
        proof {
            lemma_insert_at(out@, x, key, p as int);
            let t = orig.take(i + 1);
            assert(t.drop_last() =~= orig.take(i as int));
            assert(t.last() == x);
        }
        out.insert(p, x);
        assert(out@ =~= sort_by_key(orig.take(i + 1)));
        i = i + 1;
    }
    assert(orig.take(n as int) =~= orig);
    out
}

/// Whether `a` comes no later than `b` in dictionary order by character:
/// the order of Rust's `str` comparison, as UTF-8 keeps the order of code
/// points.
pub open spec fn lex_le(a: Seq<char>, b: Seq<char>) -> bool
    decreases a.len(),
{
    if a.len() == 0 {
        true
    } else if b.len() == 0 {
        false
    } else if a[0] != b[0] {
        a[0] < b[0]
    } else {
        lex_le(a.drop_first(), b.drop_first())
    }
}

/// Dictionary order is total.
pub proof fn lemma_lex_total(a: Seq<char>, b: Seq<char>)
    ensures
        lex_le(a, b) || lex_le(b, a),
    decreases a.len(),
{
    if a.len() > 0 && b.len() > 0 && a[0] == b[0] {
        lemma_lex_total(a.drop_first(), b.drop_first());
    }
}

/// Dictionary order is transitive.
pub proof fn lemma_lex_trans(a: Seq<char>, b: Seq<char>, c: Seq<char>)
    requires
        lex_le(a, b),
        lex_le(b, c),
    ensures
        lex_le(a, c),
    decreases a.len(),
{
    if a.len() > 0 && b.len() > 0 && c.len() > 0 && a[0] == b[0] && b[0] == c[0] {
        lemma_lex_trans(a.drop_first(), b.drop_first(), c.drop_first());
    }
}

/// Dictionary order is antisymmetric.
pub proof fn lemma_lex_antisym(a: Seq<char>, b: Seq<char>)
    requires
        lex_le(a, b),
        lex_le(b, a),
    ensures
        a == b,
    decreases a.len(),
{
    if a.len() > 0 && b.len() > 0 {
        lemma_lex_antisym(a.drop_first(), b.drop_first());
        assert(a =~= seq![a[0]] + a.drop_first());
        assert(b =~= seq![b[0]] + b.drop_first());
    } else if a.len() == 0 && b.len() == 0 {
        assert(a =~= b);
    }
}

/// Whether `a` comes no later than `b` in dictionary order.
pub fn str_lex_le(a: &str, b: &str) -> (res: bool)
    ensures
        res == lex_le(a@, b@),
{
    let n = a.unicode_len();
    let m = b.unicode_len();
    let mut i: usize = 0;
    assert(a@.skip(0) =~= a@ && b@.skip(0) =~= b@);
    while i < n
        invariant
            n == a@.len(),
            m == b@.len(),
            i <= n,
            i <= m,
            forall|k: int| 0 <= k < i ==> a@[k] == b@[k],
            lex_le(a@, b@) == lex_le(a@.skip(i as int), b@.skip(i as int)),
        decreases n - i,
    {
        if i == m {
            assert(b@.skip(i as int).len() == 0);
            return false;
        }
        let x = a.get_char(i);
        let y = b.get_char(i);
        assert(a@.skip(i as int)[0] == x && b@.skip(i as int)[0] == y);
        if x != y {
            return x < y;
        }
        assert(a@.skip(i as int).drop_first() =~= a@.skip(i + 1));
        assert(b@.skip(i as int).drop_first() =~= b@.skip(i + 1));
        i = i + 1;
    }
    assert(a@.skip(i as int).len() == 0);
    true
}

/// Whether the texts are in dictionary order.
pub open spec fn texts_ascending(s: Seq<String>) -> bool {
    forall|i: int, j: int| 0 <= i <= j < s.len() ==> lex_le(s[i]@, s[j]@)
}

/// Sorts texts into dictionary order: the order `sort_unstable` gives
/// them, the only one that is ascending and keeps the same texts.
pub fn sort_texts(v: Vec<String>) -> (res: Vec<String>)
    ensures
        texts_ascending(res@),
        crate::text::views(res@).to_multiset() == crate::text::views(v@).to_multiset(),
{
    broadcast use vstd::seq_lib::group_to_multiset_ensures;

    let ghost orig = v@;
    let mut input = v;
    let mut out: Vec<String> = Vec::new();
    let n = input.len();
    let mut i: usize = 0;
    assert(crate::text::views(orig.take(0)) =~= Seq::<Seq<char>>::empty());
    assert(crate::text::views(out@) =~= Seq::<Seq<char>>::empty());
    while i < n
        invariant
            n == orig.len(),
            i <= n,
            input@ == orig.skip(i as int),
            texts_ascending(out@),
            crate::text::views(out@).to_multiset() == crate::text::views(orig.take(i as int)).to_multiset(),
        decreases n - i,
    {
        let x = input.remove(0);
        assert(x == orig[i as int]);
        assert(input@ =~= orig.skip(i + 1));
        let mut p: usize = 0;
        while p < out.len() && str_lex_le(out[p].as_str(), x.as_str())
            invariant
                p <= out@.len(),
                forall|k: int| 0 <= k < p ==> lex_le(#[trigger] out@[k]@, x@),
            decreases out@.len() - p,
        {
            p = p + 1;
        }
        let ghost before = out@;
        out.insert(p, x);
        proof {
            assert(out@ == before.insert(p as int, x));
            assert forall|a: int, b: int| 0 <= a <= b < out@.len() implies lex_le(out@[a]@, out@[b]@) by {
                if a < p && b > p {
                    lemma_lex_total(before[p as int]@, x@);
                    lemma_lex_trans(x@, before[p as int]@, before[b - 1]@);
                    lemma_lex_trans(before[a]@, x@, before[b - 1]@);
                } else if a == p && b > p {
                    lemma_lex_total(before[p as int]@, x@);
                    lemma_lex_trans(x@, before[p as int]@, before[b - 1]@);
                } else if a == p && b == p {
                    lemma_lex_total(x@, x@);
                }
            }
            let t = orig.take(i + 1);
            assert(t =~= orig.take(i as int).push(x));
            let bv = crate::text::views(before);
            assert(crate::text::views(out@) =~= bv.insert(p as int, x@));
            vstd::seq_lib::to_multiset_insert(bv, p as int, x@);
            let tv = crate::text::views(orig.take(i as int));
            assert(crate::text::views(t) =~= tv.push(x@));
            vstd::seq_lib::to_multiset_build(tv, x@);
        }
        i = i + 1;
    }
    assert(orig.take(n as int) =~= orig);
    out
}

} // verus!
