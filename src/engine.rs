//! The aggregation engine: summaries of a user's entries as a whole, per tag
//! and per weekday, computed in one pass over an in-memory snapshot.
use vstd::prelude::*;

use crate::date::{is_valid_date, weekday_at, weekday_index, weekday_of, Date, Weekday};
use crate::moods::{all_valid, valid_mood};
use crate::error::APIError;
use crate::stats::{ints, lemma_ints_push, stats_of, stats_of_moods, MoodCount, MoodStats};
use crate::store::Store;
use crate::user::{get_user, no_user};

verus! {

/// A journal entry as the engine reads it.
#[derive(Debug)]
pub struct Entry {
    pub id: String,
    pub user_id: String,
    pub date: Date,
    pub mood: i32,
    pub tag_ids: Vec<String>,
}

/// A link between an entry and one of its tags.
#[derive(Debug)]
pub struct EntryTag {
    pub entry_id: String,
    pub tag_id: String,
}

/// Summary of the entries that carry one tag.
#[derive(Debug)]
pub struct TagStats {
    pub tag_id: String,
    pub entry_count: usize,
    pub average_mood_hundredths: u32,
    pub median_mood: i32,
    pub mood_entry_count: MoodCount,
}

/// Summary of the entries of each day of the week.
#[derive(Debug)]
pub struct WeekdayStats {
    pub monday: MoodStats,
    pub tuesday: MoodStats,
    pub wednesday: MoodStats,
    pub thursday: MoodStats,
    pub friday: MoodStats,
    pub saturday: MoodStats,
    pub sunday: MoodStats,
}

/// Every entry has a mood level and a calendar date.
pub open spec fn entries_valid(es: Seq<Entry>) -> bool {
    forall|i: int|
        0 <= i < es.len() ==> valid_mood((#[trigger] es[i]).mood as int) && is_valid_date(
            es[i].date,
        )
}

/// The moods of the entries, in order.
pub open spec fn entry_moods(es: Seq<Entry>) -> Seq<int>
    decreases es.len(),
{
    if es.len() == 0 {
        Seq::empty()
    } else {
        entry_moods(es.drop_last()).push(es.last().mood as int)
    }
}

/// The entry carries the tag `t`.
pub open spec fn has_tag(e: Entry, t: Seq<char>) -> bool {
    exists|j: int| 0 <= j < e.tag_ids@.len() && (#[trigger] e.tag_ids@[j])@ == t
}

/// Some entry carries the tag `t`.
pub open spec fn tag_used(es: Seq<Entry>, t: Seq<char>) -> bool {
    exists|k: int| 0 <= k < es.len() && has_tag(#[trigger] es[k], t)
}

/// The moods of the entries that carry the tag `t`, in order.
pub open spec fn tag_moods(es: Seq<Entry>, t: Seq<char>) -> Seq<int>
    decreases es.len(),
{
    if es.len() == 0 {
        Seq::empty()
    } else if has_tag(es.last(), t) {
        tag_moods(es.drop_last(), t).push(es.last().mood as int)
    } else {
        tag_moods(es.drop_last(), t)
    }
}

/// The weekday of an entry's date.
pub open spec fn entry_weekday(e: Entry) -> Weekday {
    weekday_at(weekday_index(e.date))
}

/// The moods of the entries dated on weekday `w`, in order.
pub open spec fn weekday_moods(es: Seq<Entry>, w: Weekday) -> Seq<int>
    decreases es.len(),
{
    if es.len() == 0 {
        Seq::empty()
    } else if entry_weekday(es.last()) == w {
        weekday_moods(es.drop_last(), w).push(es.last().mood as int)
    } else {
        weekday_moods(es.drop_last(), w)
    }
}

/// `r` summarises the mood values `s` under the tag `t`.
pub open spec fn tag_stats_of(r: TagStats, t: Seq<char>, s: Seq<int>) -> bool {
    &&& r.tag_id@ == t
    &&& stats_of(
        MoodStats {
            entry_count: r.entry_count,
            average_mood_hundredths: r.average_mood_hundredths,
            median_mood: r.median_mood,
            mood_entry_count: r.mood_entry_count,
        },
        s,
    )
}

/// `r` summarises each weekday's share of `es`.
pub open spec fn weekday_stats_of(r: WeekdayStats, es: Seq<Entry>) -> bool {
    &&& stats_of(r.monday, weekday_moods(es, Weekday::Monday))
    &&& stats_of(r.tuesday, weekday_moods(es, Weekday::Tuesday))
    &&& stats_of(r.wednesday, weekday_moods(es, Weekday::Wednesday))
    &&& stats_of(r.thursday, weekday_moods(es, Weekday::Thursday))
    &&& stats_of(r.friday, weekday_moods(es, Weekday::Friday))
    &&& stats_of(r.saturday, weekday_moods(es, Weekday::Saturday))
    &&& stats_of(r.sunday, weekday_moods(es, Weekday::Sunday))
}

proof fn lemma_prefix_step(es: Seq<Entry>, i: int)
    requires
        0 <= i < es.len(),
    ensures
        es.subrange(0, i + 1).drop_last() == es.subrange(0, i),
        es.subrange(0, i + 1).last() == es[i],
{
    assert(es.subrange(0, i + 1).drop_last() =~= es.subrange(0, i));
}

/// Moods of valid entries are mood levels.
pub proof fn lemma_entry_moods_valid(es: Seq<Entry>)
    requires
        entries_valid(es),
    ensures
        all_valid(entry_moods(es)),
        entry_moods(es).len() == es.len(),
    decreases es.len(),
{
    if es.len() > 0 {
        assert(entries_valid(es.drop_last()));
        lemma_entry_moods_valid(es.drop_last());
        assert(valid_mood(es[es.len() - 1].mood as int));
    }
}

/// Moods of the entries under one tag are mood levels.
pub proof fn lemma_tag_moods_valid(es: Seq<Entry>, t: Seq<char>)
    requires
        entries_valid(es),
    ensures
        all_valid(tag_moods(es, t)),
        tag_moods(es, t).len() <= es.len(),
    decreases es.len(),
{
    if es.len() > 0 {
        assert(entries_valid(es.drop_last()));
        lemma_tag_moods_valid(es.drop_last(), t);
        assert(valid_mood(es[es.len() - 1].mood as int));
    }
}

/// Moods of the entries of one weekday are mood levels.
pub proof fn lemma_weekday_moods_valid(es: Seq<Entry>, w: Weekday)
    requires
        entries_valid(es),
    ensures
        all_valid(weekday_moods(es, w)),
        weekday_moods(es, w).len() <= es.len(),
    decreases es.len(),
{
    if es.len() > 0 {
        assert(entries_valid(es.drop_last()));
        lemma_weekday_moods_valid(es.drop_last(), w);
        assert(valid_mood(es[es.len() - 1].mood as int));
    }
}

/// A tag carried by some entry has at least one mood in its partition.
pub proof fn lemma_used_tag_nonempty(es: Seq<Entry>, t: Seq<char>)
    requires
        tag_used(es, t),
    ensures
        tag_moods(es, t).len() > 0,
    decreases es.len(),
{
    let k = choose|k: int| 0 <= k < es.len() && has_tag(#[trigger] es[k], t);
    if k < es.len() - 1 {
        assert(es.drop_last()[k] == es[k]);
        assert(tag_used(es.drop_last(), t));
        lemma_used_tag_nonempty(es.drop_last(), t);
    }
}

/// The moods of all entries.
fn all_moods(entries: &Vec<Entry>) -> (r: Vec<i32>)
    ensures
        ints(r@) == entry_moods(entries@),
{
    let mut v: Vec<i32> = Vec::new();
    let mut i: usize = 0;
    while i < entries.len()
        invariant
            i <= entries.len(),
            ints(v@) == entry_moods(entries@.subrange(0, i as int)),
        decreases entries.len() - i,
    {
        proof {
            lemma_prefix_step(entries@, i as int);
            lemma_ints_push(v@, entries@[i as int].mood);
        }
        v.push(entries[i].mood);
        i = i + 1;
    }
    assert(entries@.subrange(0, entries.len() as int) =~= entries@);
    v
}

/// Whether the entry carries the tag.
pub fn entry_has_tag(e: &Entry, t: &String) -> (r: bool)
    ensures
        r == has_tag(*e, t@),
{
    let mut j: usize = 0;
    while j < e.tag_ids.len()
        invariant
            j <= e.tag_ids.len(),
            forall|m: int| 0 <= m < j ==> (#[trigger] e.tag_ids@[m])@ != t@,
        decreases e.tag_ids.len() - j,
    {
        if e.tag_ids[j] == *t {
            return true;
        }
        j = j + 1;
    }
    false
}

/// The moods of the entries that carry the tag.
fn moods_with_tag(entries: &Vec<Entry>, t: &String) -> (r: Vec<i32>)
    ensures
        ints(r@) == tag_moods(entries@, t@),
{
    let mut v: Vec<i32> = Vec::new();
    let mut i: usize = 0;
    while i < entries.len()
        invariant
            i <= entries.len(),
            ints(v@) == tag_moods(entries@.subrange(0, i as int), t@),
        decreases entries.len() - i,
    {
        proof {
            lemma_prefix_step(entries@, i as int);
            lemma_ints_push(v@, entries@[i as int].mood);
        }
        if entry_has_tag(&entries[i], t) {
            v.push(entries[i].mood);
        }
        i = i + 1;
    }
    assert(entries@.subrange(0, entries.len() as int) =~= entries@);
    v
}

/// The moods of the entries dated on the weekday.
fn moods_on_weekday(entries: &Vec<Entry>, day: Weekday) -> (r: Vec<i32>)
    requires
        entries_valid(entries@),
    ensures
        ints(r@) == weekday_moods(entries@, day),
{
    let mut v: Vec<i32> = Vec::new();
    let mut i: usize = 0;
    while i < entries.len()
        invariant
            i <= entries.len(),
            entries_valid(entries@),
            ints(v@) == weekday_moods(entries@.subrange(0, i as int), day),
        decreases entries.len() - i,
    {
        proof {
            lemma_prefix_step(entries@, i as int);
            lemma_ints_push(v@, entries@[i as int].mood);
        }
        if weekday_of(&entries[i].date) == day {
            v.push(entries[i].mood);
        }
        i = i + 1;
    }
    assert(entries@.subrange(0, entries.len() as int) =~= entries@);
    v
}

/// Summary of all entries: count, rounded average, median and distribution.
pub fn mood_stats(entries: &Vec<Entry>) -> (r: MoodStats)
    requires
        entries_valid(entries@),
    ensures
        stats_of(r, entry_moods(entries@)),
{
    let v = all_moods(entries);
    proof {
        lemma_entry_moods_valid(entries@);
    }
    stats_of_moods(&v)
}

/// Summary of the entries dated on one day of the week.
pub fn mood_stats_for_weekday(entries: &Vec<Entry>, day: Weekday) -> (r: MoodStats)
    requires
        entries_valid(entries@),
    ensures
        stats_of(r, weekday_moods(entries@, day)),
{
    let v = moods_on_weekday(entries, day);
    proof {
        lemma_weekday_moods_valid(entries@, day);
    }
    stats_of_moods(&v)
}

/// Summaries for all seven days of the week; a day without entries has a
/// zero summary.
pub fn weekday_stats(entries: &Vec<Entry>) -> (r: WeekdayStats)
    requires
        entries_valid(entries@),
    ensures
        weekday_stats_of(r, entries@),
{
    WeekdayStats {
        monday: mood_stats_for_weekday(entries, Weekday::Monday),
        tuesday: mood_stats_for_weekday(entries, Weekday::Tuesday),
        wednesday: mood_stats_for_weekday(entries, Weekday::Wednesday),
        thursday: mood_stats_for_weekday(entries, Weekday::Thursday),
        friday: mood_stats_for_weekday(entries, Weekday::Friday),
        saturday: mood_stats_for_weekday(entries, Weekday::Saturday),
        sunday: mood_stats_for_weekday(entries, Weekday::Sunday),
    }
}

/// `t` is the view of one of the strings of `r`.
pub open spec fn listed(r: Seq<String>, t: Seq<char>) -> bool {
    exists|i: int| 0 <= i < r.len() && (#[trigger] r[i])@ == t
}

proof fn lemma_listed_push(r: Seq<String>, c: String, t: Seq<char>)
    requires
        listed(r, t),
    ensures
        listed(r.push(c), t),
{
    let i = choose|i: int| 0 <= i < r.len() && (#[trigger] r[i])@ == t;
    assert(r.push(c)[i] == r[i]);
}

/// One of the summaries `r` is for the tag `t`.
pub open spec fn has_summary(r: Seq<TagStats>, t: Seq<char>) -> bool {
    exists|i: int| 0 <= i < r.len() && (#[trigger] r[i]).tag_id@ == t
}

/// Whether `t` is one of `seen`.
fn contains_tag(seen: &Vec<String>, t: &String) -> (r: bool)
    ensures
        r == listed(seen@, t@),
{
    let mut i: usize = 0;
    while i < seen.len()
        invariant
            i <= seen.len(),
            forall|m: int| 0 <= m < i ==> (#[trigger] seen@[m])@ != t@,
        decreases seen.len() - i,
    {
        if seen[i] == *t {
            return true;
        }
        i = i + 1;
    }
    false
}

/// Every tag carried by some entry, each once.
fn distinct_tags(entries: &Vec<Entry>) -> (r: Vec<String>)
    ensures
        forall|i: int, j: int| 0 <= i < j < r.len() ==> r@[i]@ != r@[j]@,
        forall|i: int| 0 <= i < r.len() ==> tag_used(entries@, (#[trigger] r@[i])@),
        forall|k: int, j: int|
            0 <= k < entries.len() && 0 <= j < entries@[k].tag_ids.len() ==> listed(
                r@,
                (#[trigger] entries@[k].tag_ids@[j])@,
            ),
{
    let mut seen: Vec<String> = Vec::new();
    let mut k: usize = 0;
    while k < entries.len()
        invariant
            k <= entries.len(),
            forall|i: int, j: int| 0 <= i < j < seen.len() ==> seen@[i]@ != seen@[j]@,
            forall|i: int| 0 <= i < seen.len() ==> tag_used(entries@, (#[trigger] seen@[i])@),
            forall|k2: int, j: int|
                0 <= k2 < k && 0 <= j < entries@[k2].tag_ids.len() ==> listed(
                    seen@,
                    (#[trigger] entries@[k2].tag_ids@[j])@,
                ),
        decreases entries.len() - k,
    {
        let tags = &entries[k].tag_ids;
        let mut j: usize = 0;
        while j < tags.len()
            invariant
                k < entries.len(),
                tags == entries@[k as int].tag_ids,
                j <= tags.len(),
                forall|i: int, i2: int| 0 <= i < i2 < seen.len() ==> seen@[i]@ != seen@[i2]@,
                forall|i: int|
                    0 <= i < seen.len() ==> tag_used(entries@, (#[trigger] seen@[i])@),
                forall|k2: int, j2: int|
                    0 <= k2 < k && 0 <= j2 < entries@[k2].tag_ids.len() ==> listed(
                        seen@,
                        (#[trigger] entries@[k2].tag_ids@[j2])@,
                    ),
                forall|j2: int| 0 <= j2 < j ==> listed(seen@, (#[trigger] tags@[j2])@),
            decreases tags.len() - j,
        {
            let t = &tags[j];
            if !contains_tag(&seen, t) {
                let c = t.clone();
                let ghost old_seen = seen@;
                proof {
                    assert(has_tag(entries@[k as int], t@));
                    assert(tag_used(entries@, t@));
                }
                seen.push(c);
                proof {
                    assert(seen@[old_seen.len() as int] == c);
                    assert forall|i: int| 0 <= i < seen.len() implies tag_used(
                        entries@,
                        (#[trigger] seen@[i])@,
                    ) by {
                        if i < old_seen.len() {
                            assert(seen@[i] == old_seen[i]);
                        }
                    }
                    assert forall|k2: int, j2: int|
                        0 <= k2 < k && 0 <= j2 < entries@[k2].tag_ids.len() implies listed(
                        seen@,
                        (#[trigger] entries@[k2].tag_ids@[j2])@,
                    ) by {
                        lemma_listed_push(old_seen, c, entries@[k2].tag_ids@[j2]@);
                    }
                    assert forall|j2: int| 0 <= j2 <= j implies listed(
                        seen@,
                        (#[trigger] tags@[j2])@,
                    ) by {
                        if j2 < j {
                            lemma_listed_push(old_seen, c, tags@[j2]@);
                        } else {
                            assert(seen@[old_seen.len() as int]@ == tags@[j2]@);
                        }
                    }
                }
            }
            j = j + 1;
        }
        k = k + 1;
    }
    seen
}

/// Summaries per tag, one for each tag carried by at least one entry and
/// none for any other; an entry with several tags counts under each of
/// them. The order of the summaries is not part of the contract.
pub fn tag_stats(entries: &Vec<Entry>) -> (r: Vec<TagStats>)
    requires
        entries_valid(entries@),
    ensures
        forall|i: int, j: int| 0 <= i < j < r.len() ==> r@[i].tag_id@ != r@[j].tag_id@,
        forall|i: int|
            0 <= i < r.len() ==> {
                &&& tag_used(entries@, (#[trigger] r@[i]).tag_id@)
                &&& tag_stats_of(r@[i], r@[i].tag_id@, tag_moods(entries@, r@[i].tag_id@))
                &&& r@[i].entry_count > 0
            },
        forall|k: int, j: int|
            0 <= k < entries.len() && 0 <= j < entries@[k].tag_ids.len() ==> has_summary(
                r@,
                (#[trigger] entries@[k].tag_ids@[j])@,
            ),
{
    let tags = distinct_tags(entries);
    let mut r: Vec<TagStats> = Vec::new();
    let mut i: usize = 0;
    while i < tags.len()
        invariant
            i <= tags.len(),
            entries_valid(entries@),
            r.len() == i,
            forall|m: int| 0 <= m < i ==> (#[trigger] r@[m]).tag_id@ == tags@[m]@,
            forall|m: int|
                0 <= m < i ==> {
                    &&& tag_stats_of(#[trigger] r@[m], tags@[m]@, tag_moods(entries@, tags@[m]@))
                    &&& r@[m].entry_count > 0
                },
            forall|m: int| 0 <= m < tags.len() ==> tag_used(entries@, (#[trigger] tags@[m])@),
        decreases tags.len() - i,
    {
        let t = &tags[i];
        let v = moods_with_tag(entries, t);
        proof {
            lemma_tag_moods_valid(entries@, t@);
            lemma_used_tag_nonempty(entries@, t@);
        }
        let st = stats_of_moods(&v);
        r.push(
            TagStats {
                tag_id: t.clone(),
                entry_count: st.entry_count,
                average_mood_hundredths: st.average_mood_hundredths,
                median_mood: st.median_mood,
                mood_entry_count: st.mood_entry_count,
            },
        );
        i = i + 1;
    }
    proof {
        assert forall|k: int, j: int|
            0 <= k < entries.len() && 0 <= j < entries@[k].tag_ids.len() implies has_summary(
            r@,
            (#[trigger] entries@[k].tag_ids@[j])@,
        ) by {
            let t = entries@[k].tag_ids@[j]@;
            assert(listed(tags@, t));
            let m = choose|m: int| 0 <= m < tags.len() && (#[trigger] tags@[m])@ == t;
            assert(r@[m].tag_id@ == t);
        }
    }
    r
}

proof fn lemma_weekday_of_entry(e: Entry)
    ensures
        entry_weekday(e) == Weekday::Monday || entry_weekday(e) == Weekday::Tuesday
            || entry_weekday(e) == Weekday::Wednesday || entry_weekday(e) == Weekday::Thursday
            || entry_weekday(e) == Weekday::Friday || entry_weekday(e) == Weekday::Saturday
            || entry_weekday(e) == Weekday::Sunday,
{
}

/// Every entry falls on exactly one day of the week: the seven weekday
/// partitions together hold as many moods as there are entries.
pub proof fn lemma_weekday_partition_total(es: Seq<Entry>)
    ensures
        weekday_moods(es, Weekday::Monday).len() + weekday_moods(es, Weekday::Tuesday).len()
            + weekday_moods(es, Weekday::Wednesday).len() + weekday_moods(
            es,
            Weekday::Thursday,
        ).len() + weekday_moods(es, Weekday::Friday).len() + weekday_moods(
            es,
            Weekday::Saturday,
        ).len() + weekday_moods(es, Weekday::Sunday).len() == es.len(),
    decreases es.len(),
{
    if es.len() > 0 {
        lemma_weekday_partition_total(es.drop_last());
        lemma_weekday_of_entry(es.last());
    }
}

/// The seven weekday summaries are all present and their entry counts add up
/// to the number of entries, whichever days are empty.
pub proof fn lemma_weekday_counts_total(es: Seq<Entry>, r: WeekdayStats)
    requires
        weekday_stats_of(r, es),
    ensures
        r.monday.entry_count + r.tuesday.entry_count + r.wednesday.entry_count
            + r.thursday.entry_count + r.friday.entry_count + r.saturday.entry_count
            + r.sunday.entry_count == es.len(),
{
    lemma_weekday_partition_total(es);
}

/// Tag partitions are not exclusive: an entry that carries the tags `a` and
/// `b` adds its mood to the partition of each.
pub proof fn lemma_shared_entry_in_both_tags(es: Seq<Entry>, e: Entry, a: Seq<char>, b: Seq<char>)
    requires
        has_tag(e, a),
        has_tag(e, b),
    ensures
        tag_moods(es.push(e), a) == tag_moods(es, a).push(e.mood as int),
        tag_moods(es.push(e), b) == tag_moods(es, b).push(e.mood as int),
{
    assert(es.push(e).drop_last() =~= es);
}

/// A copy of each string.
pub fn copy_strings(v: &Vec<String>) -> (r: Vec<String>)
    ensures
        r@ == v@,
{
    let mut r: Vec<String> = Vec::new();
    let mut i: usize = 0;
    while i < v.len()
        invariant
            i <= v.len(),
            r@ == v@.subrange(0, i as int),
        decreases v.len() - i,
    {
        r.push(v[i].clone());
        i = i + 1;
    }
    assert(v@.subrange(0, v.len() as int) =~= v@);
    r
}

/// `a` and `b` hold the same values.
pub open spec fn same_entry(a: Entry, b: Entry) -> bool {
    &&& a.id == b.id
    &&& a.user_id == b.user_id
    &&& a.date == b.date
    &&& a.mood == b.mood
    &&& a.tag_ids@ == b.tag_ids@
}

/// `a` and `b` hold the same entries, in the same order.
pub open spec fn same_entries(a: Seq<Entry>, b: Seq<Entry>) -> bool {
    &&& a.len() == b.len()
    &&& forall|i: int| 0 <= i < a.len() ==> same_entry(#[trigger] a[i], b[i])
}

/// Entries that hold the same values have the same partitions.
pub proof fn lemma_same_entries_partitions(a: Seq<Entry>, b: Seq<Entry>, t: Seq<char>, w: Weekday)
    requires
        same_entries(a, b),
    ensures
        entry_moods(a) == entry_moods(b),
        tag_moods(a, t) == tag_moods(b, t),
        weekday_moods(a, w) == weekday_moods(b, w),
        entries_valid(a) == entries_valid(b),
        tag_used(a, t) == tag_used(b, t),
    decreases a.len(),
{
    if a.len() > 0 {
        assert(same_entries(a.drop_last(), b.drop_last()));
        lemma_same_entries_partitions(a.drop_last(), b.drop_last(), t, w);
        assert(same_entry(a[a.len() - 1], b[b.len() - 1]));
        assert(has_tag(a.last(), t) == has_tag(b.last(), t));
    }
    if entries_valid(a) {
        assert forall|i: int| 0 <= i < b.len() implies valid_mood((#[trigger] b[i]).mood as int)
            && is_valid_date(b[i].date) by {
            assert(same_entry(a[i], b[i]));
        }
    }
    if entries_valid(b) {
        assert forall|i: int| 0 <= i < a.len() implies valid_mood((#[trigger] a[i]).mood as int)
            && is_valid_date(a[i].date) by {
            assert(same_entry(a[i], b[i]));
        }
    }
    if tag_used(a, t) {
        let k = choose|k: int| 0 <= k < a.len() && has_tag(#[trigger] a[k], t);
        assert(same_entry(a[k], b[k]));
        assert(has_tag(b[k], t));
    }
    if tag_used(b, t) {
        let k = choose|k: int| 0 <= k < b.len() && has_tag(#[trigger] b[k], t);
        assert(same_entry(a[k], b[k]));
        assert(has_tag(a[k], t));
    }
}

impl Entry {
    pub fn duplicate(&self) -> (r: Entry)
        ensures
            same_entry(r, *self),
    {
        let tag_ids = copy_strings(&self.tag_ids);
        proof {
            assert(tag_ids@ == self.tag_ids@);
        }
        Entry {
            id: self.id.clone(),
            user_id: self.user_id.clone(),
            date: self.date,
            mood: self.mood,
            tag_ids,
        }
    }
}

/// The entries written by `user_id`, in the order of the snapshot.
pub open spec fn entries_of(es: Seq<Entry>, user_id: Seq<char>) -> Seq<Entry>
    decreases es.len(),
{
    if es.len() == 0 {
        Seq::empty()
    } else if es.last().user_id@ == user_id {
        entries_of(es.drop_last(), user_id).push(es.last())
    } else {
        entries_of(es.drop_last(), user_id)
    }
}

/// The entries of one user are valid where all entries are.
pub proof fn lemma_entries_of_valid(es: Seq<Entry>, user_id: Seq<char>)
    requires
        entries_valid(es),
    ensures
        entries_valid(entries_of(es, user_id)),
    decreases es.len(),
{
    if es.len() > 0 {
        assert(entries_valid(es.drop_last()));
        lemma_entries_of_valid(es.drop_last(), user_id);
        let prev = entries_of(es.drop_last(), user_id);
        assert(es.last() == es[es.len() - 1]);
        if es.last().user_id@ == user_id {
            assert forall|i: int| 0 <= i < prev.push(es.last()).len() implies valid_mood(
                (#[trigger] prev.push(es.last())[i]).mood as int,
            ) && is_valid_date(prev.push(es.last())[i].date) by {
                if i < prev.len() {
                    assert(prev.push(es.last())[i] == prev[i]);
                }
            }
        }
    }
}

/// The entries of a user: `UserNotFound` without such a user.
pub fn entries_for_user(store: &Store, user_id: &str) -> (r: Result<Vec<Entry>, APIError>)
    ensures
        match r {
            Ok(v) => !no_user(store.users@, user_id@, false) && same_entries(
                v@,
                entries_of(store.entries@, user_id@),
            ),
            Err(e) => e == APIError::UserNotFound && no_user(store.users@, user_id@, false),
        },
{
    if get_user(store, user_id).is_err() {
        return Err(APIError::UserNotFound);
    }
    let owner = user_id.to_string();
    let mut r: Vec<Entry> = Vec::new();
    let mut i: usize = 0;
    while i < store.entries.len()
        invariant
            i <= store.entries.len(),
            owner@ == user_id@,
            same_entries(r@, entries_of(store.entries@.subrange(0, i as int), owner@)),
        decreases store.entries.len() - i,
    {
        let e = &store.entries[i];
        assert(store.entries@.subrange(0, i + 1).drop_last() =~= store.entries@.subrange(
            0,
            i as int,
        ));
        if e.user_id == owner {
            r.push(e.duplicate());
        }
        i = i + 1;
    }
    assert(store.entries@.subrange(0, store.entries.len() as int) =~= store.entries@);
    Ok(r)
}

/// Summary of all entries of a user: `UserNotFound` without such a user.
pub fn user_mood_stats(store: &Store, user_id: &str) -> (r: Result<MoodStats, APIError>)
    requires
        entries_valid(store.entries@),
    ensures
        match r {
            Ok(st) => !no_user(store.users@, user_id@, false) && stats_of(
                st,
                entry_moods(entries_of(store.entries@, user_id@)),
            ),
            Err(e) => e == APIError::UserNotFound && no_user(store.users@, user_id@, false),
        },
{
    let entries = entries_for_user(store, user_id)?;
    proof {
        lemma_entries_of_valid(store.entries@, user_id@);
        lemma_same_entries_partitions(
            entries@,
            entries_of(store.entries@, user_id@),
            Seq::empty(),
            Weekday::Monday,
        );
    }
    Ok(mood_stats(&entries))
}

/// Summaries per tag of a user's entries: `UserNotFound` without such a
/// user.
pub fn user_tag_stats(store: &Store, user_id: &str) -> (r: Result<Vec<TagStats>, APIError>)
    requires
        entries_valid(store.entries@),
    ensures
        match r {
            Ok(ts) => {
                let es = entries_of(store.entries@, user_id@);
                &&& !no_user(store.users@, user_id@, false)
                &&& forall|i: int, j: int|
                    0 <= i < j < ts.len() ==> ts@[i].tag_id@ != ts@[j].tag_id@
                &&& forall|i: int|
                    0 <= i < ts.len() ==> {
                        &&& tag_used(es, (#[trigger] ts@[i]).tag_id@)
                        &&& tag_stats_of(ts@[i], ts@[i].tag_id@, tag_moods(es, ts@[i].tag_id@))
                        &&& ts@[i].entry_count > 0
                    }
                &&& forall|k: int, j: int|
                    0 <= k < es.len() && 0 <= j < es[k].tag_ids.len() ==> has_summary(
                        ts@,
                        (#[trigger] es[k].tag_ids@[j])@,
                    )
            },
            Err(e) => e == APIError::UserNotFound && no_user(store.users@, user_id@, false),
        },
{
    let entries = entries_for_user(store, user_id)?;
    let ghost es = entries_of(store.entries@, user_id@);
    proof {
        lemma_entries_of_valid(store.entries@, user_id@);
        lemma_same_entries_partitions(entries@, es, Seq::empty(), Weekday::Monday);
    }
    let ts = tag_stats(&entries);
    proof {
        assert forall|i: int| 0 <= i < ts.len() implies {
            &&& tag_used(es, (#[trigger] ts@[i]).tag_id@)
            &&& tag_stats_of(ts@[i], ts@[i].tag_id@, tag_moods(es, ts@[i].tag_id@))
            &&& ts@[i].entry_count > 0
        } by {
            lemma_same_entries_partitions(entries@, es, ts@[i].tag_id@, Weekday::Monday);
        }
        assert forall|k: int, j: int|
            0 <= k < es.len() && 0 <= j < es[k].tag_ids.len() implies has_summary(
            ts@,
            (#[trigger] es[k].tag_ids@[j])@,
        ) by {
            assert(same_entry(entries@[k], es[k]));
            assert(entries@[k].tag_ids@[j] == es[k].tag_ids@[j]);
        }
    }
    Ok(ts)
}

/// Summaries per weekday of a user's entries: `UserNotFound` without such
/// a user.
pub fn user_weekday_stats(store: &Store, user_id: &str) -> (r: Result<WeekdayStats, APIError>)
    requires
        entries_valid(store.entries@),
    ensures
        match r {
            Ok(w) => !no_user(store.users@, user_id@, false) && weekday_stats_of(
                w,
                entries_of(store.entries@, user_id@),
            ),
            Err(e) => e == APIError::UserNotFound && no_user(store.users@, user_id@, false),
        },
{
    let entries = entries_for_user(store, user_id)?;
    let ghost es = entries_of(store.entries@, user_id@);
    proof {
        lemma_entries_of_valid(store.entries@, user_id@);
        lemma_same_entries_partitions(entries@, es, Seq::empty(), Weekday::Monday);
        lemma_same_entries_partitions(entries@, es, Seq::empty(), Weekday::Tuesday);
        lemma_same_entries_partitions(entries@, es, Seq::empty(), Weekday::Wednesday);
        lemma_same_entries_partitions(entries@, es, Seq::empty(), Weekday::Thursday);
        lemma_same_entries_partitions(entries@, es, Seq::empty(), Weekday::Friday);
        lemma_same_entries_partitions(entries@, es, Seq::empty(), Weekday::Saturday);
        lemma_same_entries_partitions(entries@, es, Seq::empty(), Weekday::Sunday);
    }
    Ok(weekday_stats(&entries))
}

/// The tags that `links` give the entry `entry_id`, in order.
pub open spec fn linked_tags(links: Seq<EntryTag>, entry_id: Seq<char>) -> Seq<Seq<char>>
    decreases links.len(),
{
    if links.len() == 0 {
        Seq::empty()
    } else if links.last().entry_id@ == entry_id {
        linked_tags(links.drop_last(), entry_id).push(links.last().tag_id@)
    } else {
        linked_tags(links.drop_last(), entry_id)
    }
}

/// The ids of the tags of entry `entry_id`.
pub fn tags_of_entry(links: &Vec<EntryTag>, entry_id: &String) -> (r: Vec<String>)
    ensures
        r.len() == linked_tags(links@, entry_id@).len(),
        forall|i: int| 0 <= i < r.len() ==> (#[trigger] r@[i])@ == linked_tags(links@, entry_id@)[i],
{
    let mut r: Vec<String> = Vec::new();
    let mut i: usize = 0;
    while i < links.len()
        invariant
            i <= links.len(),
            r.len() == linked_tags(links@.subrange(0, i as int), entry_id@).len(),
            forall|m: int|
                0 <= m < r.len() ==> (#[trigger] r@[m])@ == linked_tags(
                    links@.subrange(0, i as int),
                    entry_id@,
                )[m],
        decreases links.len() - i,
    {
        assert(links@.subrange(0, i + 1).drop_last() =~= links@.subrange(0, i as int));
        if links[i].entry_id == *entry_id {
            r.push(links[i].tag_id.clone());
        }
        i = i + 1;
    }
    assert(links@.subrange(0, links.len() as int) =~= links@);
    r
}

} // verus!
