//! The current time and random draws: the two sources of values that the
//! signing code does not decide itself.
use vstd::prelude::*;
use rand::seq::IteratorRandom;

verus! {

/// `jiff::Timestamp::now().as_second()`: the current Unix time in seconds.
/// Nothing is promised of the value.
#[verifier::external_body]
pub(crate) fn now_seconds() -> i64 {
    jiff::Timestamp::now().as_second()
}

/// `jiff::Timestamp::now().as_millisecond()`: the current Unix time in
/// milliseconds. Nothing is promised of the value.
#[verifier::external_body]
pub(crate) fn now_millis() -> i64 {
    jiff::Timestamp::now().as_millisecond()
}

/// `rand::random_range(low..=high)`: a value drawn from the thread-local
/// generator, which lies in the inclusive range (the function panics only on
/// an empty range, which `requires` rules out).
#[verifier::external_body]
pub(crate) fn random_inclusive(low: u32, high: u32) -> (r: u32)
    requires
        low <= high,
    ensures
        low <= r <= high,
{
    rand::random_range(low..=high)
}

/// `(0..n).sample(&mut rand::rng(), amount)`: distinct values below
/// `n`, drawn at random. The source fills a reservoir with the first
/// `amount` values of the range and then only overwrites slots with later
/// values, so the result holds `min(amount, n)` values, each below `n`, no
/// two equal. Which values and in which order is left to chance.
#[verifier::external_body]
pub(crate) fn sample_below(n: u32, amount: usize) -> (res: Vec<u32>)
    ensures
        res@.len() == if (amount as int) < (n as int) { amount as int } else { n as int },
        forall|i: int| 0 <= i < res@.len() ==> #[trigger] res@[i] < n,
        forall|i: int, j: int|
            0 <= i < j < res@.len() ==> #[trigger] res@[i] != #[trigger] res@[j],
{
    (0..n).sample(&mut rand::rng(), amount)
}

} // verus!
