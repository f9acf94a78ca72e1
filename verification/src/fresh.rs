//! Values that come from the clock and from chance.
use rand::seq::IteratorRandom;
use rand::Rng;
use vstd::prelude::*;

verus! {

/// Whether `c` is an ASCII letter or digit.
pub open spec fn is_alphanumeric(c: char) -> bool {
    ('a' <= c <= 'z') || ('A' <= c <= 'Z') || ('0' <= c <= '9')
}

/// The current time, in microseconds since the Unix epoch: calls
/// `chrono::Utc::now` and `DateTime::timestamp_micros`. Nothing is claimed
/// of the value.
#[verifier::external_body]
pub(crate) fn now_micros() -> (now: i64) {
    chrono::Utc::now().timestamp_micros()
}

/// A fresh random identifier: calls `uuid::Uuid::new_v4` and
/// `Uuid::as_u128`. Nothing is claimed of the value.
#[verifier::external_body]
pub(crate) fn new_uuid() -> (id: u128) {
    uuid::Uuid::new_v4().as_u128()
}

/// `len` characters drawn from `rand::distr::Alphanumeric` with
/// `rand::rng()`: the distribution's documentation and source give the
/// characters as ASCII letters and digits, and `take(len)` of the endless
/// sample iterator gives exactly `len` of them. Nothing else is claimed.
#[verifier::external_body]
pub(crate) fn random_alphanumeric(len: usize) -> (s: String)
    ensures
        s@.len() == len,
        forall|i: int| 0 <= i < s@.len() ==> is_alphanumeric(#[trigger] s@[i]),
{
    rand::rng().sample_iter(&rand::distr::Alphanumeric).take(len).map(char::from).collect()
}

/// A uniformly chosen index below `n`, or `None` when `n` is zero: calls
/// `rand::seq::IteratorRandom::choose` on `0..n` with `rand::rng()`. Its
/// documentation says it returns `None` only for an empty iterator and
/// otherwise one of the iterator's items.
#[verifier::external_body]
pub(crate) fn choose_index(n: usize) -> (index: Option<usize>)
    ensures
        index is None <==> n == 0,
        index matches Some(i) ==> i < n,
{
    (0..n).choose(&mut rand::rng())
}

} // verus!
