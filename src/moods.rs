//! Mathematical model of a sequence of mood values (each in `1..=5`):
//! per-level counts, sum, rounded average, ascending arrangement and the
//! rank median, with the lemmas that connect them.
use vstd::prelude::*;
use vstd::relations::{sorted_by, total_ordering};

verus! {

/// A mood value is one of the five levels.
pub open spec fn valid_mood(m: int) -> bool {
    1 <= m <= 5
}

/// Every value of the sequence is a mood level.
pub open spec fn all_valid(s: Seq<int>) -> bool {
    forall|i: int| 0 <= i < s.len() ==> valid_mood(#[trigger] s[i])
}

/// Number of occurrences of `level` in `s`.
pub open spec fn level_count(s: Seq<int>, level: int) -> nat
    decreases s.len(),
{
    if s.len() == 0 {
        0
    } else {
        level_count(s.drop_last(), level) + if s.last() == level {
            1nat
        } else {
            0nat
        }
    }
}

/// Sum of the values of `s`.
pub open spec fn mood_sum(s: Seq<int>) -> int
    decreases s.len(),
{
    if s.len() == 0 {
        0
    } else {
        mood_sum(s.drop_last()) + s.last()
    }
}

/// `round(100 * sum / n)` with halves rounded up (the mean is never negative
/// here), that is the mean rounded to two decimals, in hundredths; `0` for
/// an empty set.
pub open spec fn round2_hundredths(sum: int, n: int) -> int {
    if n <= 0 {
        0
    } else {
        (200 * sum + n) / (2 * n)
    }
}

/// The rounded average of `s`, in hundredths.
pub open spec fn average_hundredths(s: Seq<int>) -> int {
    round2_hundredths(mood_sum(s), s.len() as int)
}

/// `n` copies of `level`.
pub open spec fn repeat(level: int, n: nat) -> Seq<int> {
    Seq::new(n, |i: int| level)
}

/// The values of `s` in ascending order: all ones, then all twos, up to fives.
pub open spec fn ascending_moods(s: Seq<int>) -> Seq<int> {
    repeat(1, level_count(s, 1)) + repeat(2, level_count(s, 2)) + repeat(3, level_count(s, 3))
        + repeat(4, level_count(s, 4)) + repeat(5, level_count(s, 5))
}

/// One-based rank of the discrete 0.5 percentile: `ceil(n / 2)`.
pub open spec fn median_rank(n: int) -> int {
    (n + 1) / 2
}

/// The discrete 0.5 percentile of `s`: the value at rank `ceil(n / 2)` of the
/// ascending arrangement, or `0` for an empty set.
pub open spec fn median_of(s: Seq<int>) -> int {
    if s.len() == 0 {
        0
    } else {
        ascending_moods(s)[median_rank(s.len() as int) - 1]
    }
}

/// The order `<=` on integers, as a relation.
pub open spec fn int_le() -> spec_fn(int, int) -> bool {
    |x: int, y: int| x <= y
}

/// `v` is in ascending order.
pub open spec fn is_ascending(v: Seq<int>) -> bool {
    sorted_by(v, int_le())
}

/// The five level counts of a valid sequence add up to its length.
pub proof fn lemma_level_counts_total(s: Seq<int>)
    requires
        all_valid(s),
    ensures
        level_count(s, 1) + level_count(s, 2) + level_count(s, 3) + level_count(s, 4)
            + level_count(s, 5) == s.len(),
    decreases s.len(),
{
    if s.len() > 0 {
        assert(valid_mood(s[s.len() - 1]));
        lemma_level_counts_total(s.drop_last());
    }
}

/// A valid sequence has no value outside the five levels.
pub proof fn lemma_level_count_outside(s: Seq<int>, x: int)
    requires
        all_valid(s),
        !valid_mood(x),
    ensures
        level_count(s, x) == 0,
    decreases s.len(),
{
    if s.len() > 0 {
        assert(valid_mood(s[s.len() - 1]));
        lemma_level_count_outside(s.drop_last(), x);
    }
}

/// The sum of a valid sequence lies between its length and five times it.
pub proof fn lemma_sum_bounds(s: Seq<int>)
    requires
        all_valid(s),
    ensures
        s.len() <= mood_sum(s) <= 5 * s.len(),
    decreases s.len(),
{
    if s.len() > 0 {
        assert(valid_mood(s[s.len() - 1]));
        lemma_sum_bounds(s.drop_last());
    }
}

/// Counting is additive over concatenation.
pub proof fn lemma_level_count_concat(a: Seq<int>, b: Seq<int>, x: int)
    ensures
        level_count(a + b, x) == level_count(a, x) + level_count(b, x),
    decreases b.len(),
{
    if b.len() > 0 {
        assert((a + b).drop_last() =~= a + b.drop_last());
        lemma_level_count_concat(a, b.drop_last(), x);
    } else {
        assert(a + b =~= a);
    }
}

/// Occurrences of `x` in `n` copies of `level`.
pub proof fn lemma_level_count_repeat(level: int, n: nat, x: int)
    ensures
        level_count(repeat(level, n), x) == if x == level {
            n
        } else {
            0
        },
    decreases n,
{
    if n > 0 {
        assert(repeat(level, n).drop_last() =~= repeat(level, (n - 1) as nat));
        lemma_level_count_repeat(level, (n - 1) as nat, x);
    }
}

/// The multiset of a sequence counts what `level_count` counts.
pub proof fn lemma_multiset_count(s: Seq<int>, x: int)
    ensures
        s.to_multiset().count(x) == level_count(s, x),
    decreases s.len(),
{
    broadcast use vstd::seq_lib::group_to_multiset_ensures;
    broadcast use vstd::multiset::group_multiset_axioms;

    if s.len() == 0 {
    } else {
        let p = s.drop_last();
        assert(s =~= p.push(s.last()));
        lemma_multiset_count(p, x);
    }
}

/// Number of values of `s` at or below `level`.
pub open spec fn count_up_to(s: Seq<int>, level: int) -> int
    decreases level,
{
    if level < 1 {
        0
    } else {
        count_up_to(s, level - 1) + level_count(s, level)
    }
}

/// The level found at position `i` of the ascending arrangement: the least
/// level whose running count exceeds `i`.
pub open spec fn level_at(s: Seq<int>, i: int) -> int {
    if i < count_up_to(s, 1) {
        1
    } else if i < count_up_to(s, 2) {
        2
    } else if i < count_up_to(s, 3) {
        3
    } else if i < count_up_to(s, 4) {
        4
    } else {
        5
    }
}

/// Shape of the ascending arrangement: its length, and the level at each
/// position.
pub proof fn lemma_ascending_shape(s: Seq<int>)
    ensures
        ascending_moods(s).len() == count_up_to(s, 5),
        forall|i: int|
            0 <= i < ascending_moods(s).len() ==> #[trigger] ascending_moods(s)[i] == level_at(
                s,
                i,
            ),
{
    reveal_with_fuel(count_up_to, 6);
    let r1 = repeat(1, level_count(s, 1));
    let r2 = repeat(2, level_count(s, 2));
    let r3 = repeat(3, level_count(s, 3));
    let r4 = repeat(4, level_count(s, 4));
    let r5 = repeat(5, level_count(s, 5));
    let a = ascending_moods(s);
    assert(a == r1 + r2 + r3 + r4 + r5);
    assert forall|i: int| 0 <= i < a.len() implies #[trigger] a[i] == level_at(s, i) by {
        if i < r1.len() {
        } else if i < r1.len() + r2.len() {
        } else if i < r1.len() + r2.len() + r3.len() {
        } else if i < r1.len() + r2.len() + r3.len() + r4.len() {
        } else {
        }
    }
}

/// The arrangement is ascending.
pub proof fn lemma_ascending_sorted(s: Seq<int>)
    ensures
        is_ascending(ascending_moods(s)),
{
    reveal_with_fuel(count_up_to, 6);
    lemma_ascending_shape(s);
    let a = ascending_moods(s);
    assert forall|i: int, j: int| 0 <= i < j < a.len() implies (int_le())(a[i], a[j]) by {
        assert(a[i] == level_at(s, i));
        assert(a[j] == level_at(s, j));
    }
}

/// The arrangement holds each value as often as `s` does.
pub proof fn lemma_ascending_counts(s: Seq<int>, x: int)
    requires
        all_valid(s),
    ensures
        level_count(ascending_moods(s), x) == level_count(s, x),
{
    let r1 = repeat(1, level_count(s, 1));
    let r2 = repeat(2, level_count(s, 2));
    let r3 = repeat(3, level_count(s, 3));
    let r4 = repeat(4, level_count(s, 4));
    let r5 = repeat(5, level_count(s, 5));
    lemma_level_count_concat(r1 + r2 + r3 + r4, r5, x);
    lemma_level_count_concat(r1 + r2 + r3, r4, x);
    lemma_level_count_concat(r1 + r2, r3, x);
    lemma_level_count_concat(r1, r2, x);
    lemma_level_count_repeat(1, level_count(s, 1), x);
    lemma_level_count_repeat(2, level_count(s, 2), x);
    lemma_level_count_repeat(3, level_count(s, 3), x);
    lemma_level_count_repeat(4, level_count(s, 4), x);
    lemma_level_count_repeat(5, level_count(s, 5), x);
    if !valid_mood(x) {
        lemma_level_count_outside(s, x);
    }
}

/// The arrangement is a permutation of `s`.
pub proof fn lemma_ascending_permutation(s: Seq<int>)
    requires
        all_valid(s),
    ensures
        ascending_moods(s).to_multiset() == s.to_multiset(),
        ascending_moods(s).len() == s.len(),
{
    let a = ascending_moods(s);
    assert forall|x: int| a.to_multiset().count(x) == s.to_multiset().count(x) by {
        lemma_multiset_count(a, x);
        lemma_multiset_count(s, x);
        lemma_ascending_counts(s, x);
    }
    assert(a.to_multiset() =~= s.to_multiset());
    reveal_with_fuel(count_up_to, 6);
    lemma_ascending_shape(s);
    lemma_level_counts_total(s);
}

/// Median by rank: for every ascending arrangement `v` of a valid mood
/// sequence `s` (same values, same multiplicities), the median of `s` is the
/// value at one-based rank `ceil(n / 2)` of `v`. On an even count this is the
/// lower of the two middle values, never their midpoint.
pub proof fn lemma_median_is_rank_value(s: Seq<int>, v: Seq<int>)
    requires
        all_valid(s),
        is_ascending(v),
        v.to_multiset() == s.to_multiset(),
        s.len() > 0,
    ensures
        v.len() == s.len(),
        median_of(s) == v[median_rank(s.len() as int) - 1],
{
    broadcast use vstd::seq_lib::group_to_multiset_ensures;

    lemma_ascending_permutation(s);
    lemma_ascending_sorted(s);
    assert(total_ordering(int_le()));
    vstd::seq_lib::lemma_sorted_unique(v, ascending_moods(s), int_le());
}

/// The rounded average of a non-empty valid sequence lies in `[1.00, 5.00]`.
pub proof fn lemma_average_bounds(s: Seq<int>)
    requires
        all_valid(s),
        s.len() > 0,
    ensures
        100 <= average_hundredths(s) <= 500,
{
    lemma_sum_bounds(s);
    let n = s.len() as int;
    let sum = mood_sum(s);
    let q = (200 * sum + n) / (2 * n);
    assert(q * (2 * n) <= 200 * sum + n < (q + 1) * (2 * n)) by (nonlinear_arith)
        requires
            q == (200 * sum + n) / (2 * n),
            n > 0,
    ;
    assert(100 <= q <= 500) by (nonlinear_arith)
        requires
            q * (2 * n) <= 200 * sum + n,
            200 * sum + n < (q + 1) * (2 * n),
            n <= sum <= 5 * n,
            n > 0,
    ;
}

/// The median of a valid sequence is the level at rank `ceil(n / 2)`
/// counted through the running level counts.
pub proof fn lemma_median_by_counts(s: Seq<int>)
    requires
        all_valid(s),
        s.len() > 0,
    ensures
        median_of(s) == level_at(s, (s.len() - 1) / 2),
        count_up_to(s, 5) == s.len(),
{
    reveal_with_fuel(count_up_to, 6);
    lemma_level_counts_total(s);
    lemma_ascending_shape(s);
}

} // verus!
