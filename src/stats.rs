//! Summaries of a set of mood values: distribution over the five levels,
//! average rounded to two decimals, and the rank median.
use vstd::prelude::*;

use crate::moods::{
    all_valid, average_hundredths, count_up_to, lemma_average_bounds, lemma_level_counts_total,
    lemma_median_by_counts, level_count, median_of, mood_sum, round2_hundredths,
};

verus! {

/// Number of entries at each mood level.
#[derive(Debug)]
pub struct MoodCount {
    pub mood_1: usize,
    pub mood_2: usize,
    pub mood_3: usize,
    pub mood_4: usize,
    pub mood_5: usize,
}

/// Summary of a set of entries. The average is kept in hundredths: the mean
/// rounded to two decimals, times one hundred (`324` for `3.24`).
#[derive(Debug)]
pub struct MoodStats {
    pub entry_count: usize,
    pub average_mood_hundredths: u32,
    pub median_mood: i32,
    pub mood_entry_count: MoodCount,
}

/// The values of a vector of moods, as integers.
pub open spec fn ints(v: Seq<i32>) -> Seq<int> {
    v.map_values(|m: i32| m as int)
}

/// `c` holds the level counts of `s`.
pub open spec fn counts_of(c: MoodCount, s: Seq<int>) -> bool {
    &&& c.mood_1 == level_count(s, 1)
    &&& c.mood_2 == level_count(s, 2)
    &&& c.mood_3 == level_count(s, 3)
    &&& c.mood_4 == level_count(s, 4)
    &&& c.mood_5 == level_count(s, 5)
}

/// `r` summarises the mood values `s`.
pub open spec fn stats_of(r: MoodStats, s: Seq<int>) -> bool {
    &&& r.entry_count == s.len()
    &&& r.average_mood_hundredths == average_hundredths(s)
    &&& r.median_mood == median_of(s)
    &&& counts_of(r.mood_entry_count, s)
}

/// Appending a mood appends its integer value.
pub proof fn lemma_ints_push(v: Seq<i32>, m: i32)
    ensures
        ints(v.push(m)) == ints(v).push(m as int),
        ints(v.push(m)).drop_last() == ints(v),
        ints(v.push(m)).last() == m as int,
{
    assert(ints(v.push(m)) =~= ints(v).push(m as int));
    assert(ints(v.push(m)).drop_last() =~= ints(v));
}

/// Mood distribution: the number of values at each level.
pub fn count_moods(moods: &Vec<i32>) -> (r: MoodCount)
    requires
        all_valid(ints(moods@)),
    ensures
        counts_of(r, ints(moods@)),
{
    let mut c = MoodCount { mood_1: 0, mood_2: 0, mood_3: 0, mood_4: 0, mood_5: 0 };
    let mut i: usize = 0;
    while i < moods.len()
        invariant
            i <= moods.len(),
            all_valid(ints(moods@)),
            counts_of(c, ints(moods@.subrange(0, i as int))),
            c.mood_1 + c.mood_2 + c.mood_3 + c.mood_4 + c.mood_5 == i,
        decreases moods.len() - i,
    {
        let m = moods[i];
        assert(ints(moods@)[i as int] == m as int);
        assert(moods@.subrange(0, i + 1) =~= moods@.subrange(0, i as int).push(m));
        proof {
            lemma_ints_push(moods@.subrange(0, i as int), m);
        }
        if m == 1 {
            c.mood_1 = c.mood_1 + 1;
        } else if m == 2 {
            c.mood_2 = c.mood_2 + 1;
        } else if m == 3 {
            c.mood_3 = c.mood_3 + 1;
        } else if m == 4 {
            c.mood_4 = c.mood_4 + 1;
        } else {
            c.mood_5 = c.mood_5 + 1;
        }
        i = i + 1;
    }
    assert(moods@.subrange(0, moods.len() as int) =~= moods@);
    c
}

/// Sum of the values.
fn sum_moods(moods: &Vec<i32>) -> (r: u128)
    requires
        all_valid(ints(moods@)),
    ensures
        r == mood_sum(ints(moods@)),
        r <= 5 * moods.len(),
{
    let mut sum: u128 = 0;
    let mut i: usize = 0;
    while i < moods.len()
        invariant
            i <= moods.len(),
            all_valid(ints(moods@)),
            sum == mood_sum(ints(moods@.subrange(0, i as int))),
            sum <= 5 * i,
        decreases moods.len() - i,
    {
        let m = moods[i];
        assert(ints(moods@)[i as int] == m as int);
        assert(moods@.subrange(0, i + 1) =~= moods@.subrange(0, i as int).push(m));
        proof {
            lemma_ints_push(moods@.subrange(0, i as int), m);
        }
        sum = sum + m as u128;
        i = i + 1;
    }
    assert(moods@.subrange(0, moods.len() as int) =~= moods@);
    sum
}

/// Rounding policy: the mean `sum / count` rounded to two decimals, halves
/// away from zero, in hundredths; `0` when there is nothing to average.
pub fn format_average_mood(sum: u128, count: u128) -> (r: u128)
    requires
        sum <= 8 * u64::MAX,
        count <= u64::MAX,
    ensures
        r == round2_hundredths(sum as int, count as int),
{
    if count == 0 {
        0
    } else {
        (200 * sum + count) / (2 * count)
    }
}

/// Median calculator: the discrete 0.5 percentile of the values (the value
/// at rank `ceil(n / 2)` in ascending order), `0` for no values.
pub fn median_mood(moods: &Vec<i32>) -> (r: i32)
    requires
        all_valid(ints(moods@)),
    ensures
        r == median_of(ints(moods@)),
{
    let c = count_moods(moods);
    median_from_counts(&c, moods.len(), Ghost(ints(moods@)))
}

fn median_from_counts(c: &MoodCount, n: usize, Ghost(s): Ghost<Seq<int>>) -> (r: i32)
    requires
        all_valid(s),
        counts_of(*c, s),
        n == s.len(),
    ensures
        r == median_of(s),
{
    if n == 0 {
        return 0;
    }
    proof {
        lemma_median_by_counts(s);
        reveal_with_fuel(count_up_to, 6);
    }
    let k = (n - 1) / 2;
    if k < c.mood_1 {
        1
    } else if k < c.mood_1 + c.mood_2 {
        2
    } else if k < c.mood_1 + c.mood_2 + c.mood_3 {
        3
    } else if k < c.mood_1 + c.mood_2 + c.mood_3 + c.mood_4 {
        4
    } else {
        5
    }
}

/// Summary of a set of mood values: count, rounded average, median and
/// distribution.
pub fn stats_of_moods(moods: &Vec<i32>) -> (r: MoodStats)
    requires
        all_valid(ints(moods@)),
    ensures
        stats_of(r, ints(moods@)),
{
    let c = count_moods(moods);
    let n = moods.len();
    let sum = sum_moods(moods);
    let avg = format_average_mood(sum, n as u128);
    proof {
        if n > 0 {
            lemma_average_bounds(ints(moods@));
        }
    }
    let median = median_from_counts(&c, n, Ghost(ints(moods@)));
    MoodStats {
        entry_count: n,
        average_mood_hundredths: avg as u32,
        median_mood: median,
        mood_entry_count: c,
    }
}

/// The distribution of a summary accounts for every entry: the five level
/// counts add up to the entry count.
pub proof fn lemma_distribution_total(r: MoodStats, s: Seq<int>)
    requires
        all_valid(s),
        stats_of(r, s),
    ensures
        r.mood_entry_count.mood_1 + r.mood_entry_count.mood_2 + r.mood_entry_count.mood_3
            + r.mood_entry_count.mood_4 + r.mood_entry_count.mood_5 == r.entry_count,
{
    lemma_level_counts_total(s);
}

/// The average of a summary is the mean rounded to two decimals; it lies in
/// `[1.00, 5.00]` when there are entries and is exactly zero when there are
/// none.
pub proof fn lemma_average_range(r: MoodStats, s: Seq<int>)
    requires
        all_valid(s),
        stats_of(r, s),
    ensures
        r.average_mood_hundredths == round2_hundredths(mood_sum(s), s.len() as int),
        r.entry_count > 0 ==> 100 <= r.average_mood_hundredths <= 500,
        r.entry_count == 0 ==> r.average_mood_hundredths == 0,
{
    if s.len() > 0 {
        lemma_average_bounds(s);
    }
}

} // verus!
