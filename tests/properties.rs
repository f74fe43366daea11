use diarycomputer::date::{days_in_month, weekday_of, Date, Weekday};
use diarycomputer::engine;
use diarycomputer::engine::Entry;
use diarycomputer::stats::{count_moods, format_average_mood, median_mood, stats_of_moods};

fn entry(day: u32, mood: i32, tags: &[&str]) -> Entry {
    Entry {
        id: format!("e{day}"),
        user_id: "u".to_string(),
        date: Date::new(2024, 1, day).unwrap(),
        mood,
        tag_ids: tags.iter().map(|t| t.to_string()).collect(),
    }
}

#[test]
fn distribution_adds_up_to_entry_count() {
    let moods = vec![3, 1, 4, 1, 5, 2, 2, 5, 3, 5];
    let stats = stats_of_moods(&moods);
    let c = &stats.mood_entry_count;
    assert_eq!(c.mood_1 + c.mood_2 + c.mood_3 + c.mood_4 + c.mood_5, stats.entry_count);
    assert_eq!((c.mood_1, c.mood_2, c.mood_3, c.mood_4, c.mood_5), (2, 2, 2, 1, 3));
}

#[test]
fn average_is_rounded_mean_within_range() {
    // 31 / 10 = 3.1
    let stats = stats_of_moods(&vec![3, 1, 4, 1, 5, 2, 2, 5, 3, 5]);
    assert_eq!(stats.average_mood_hundredths, 310);
    // 2 / 3 = 0.666.. is impossible; 5 / 3 = 1.666.. rounds to 1.67
    assert_eq!(stats_of_moods(&vec![1, 1, 3]).average_mood_hundredths, 167);
    assert_eq!(stats_of_moods(&vec![1, 1, 1]).average_mood_hundredths, 100);
    assert_eq!(stats_of_moods(&vec![5, 5]).average_mood_hundredths, 500);
    assert_eq!(stats_of_moods(&vec![]).average_mood_hundredths, 0);
}

#[test]
fn rounding_policy_values() {
    assert_eq!(format_average_mood(81, 25), 324);
    // 1 / 8 = 0.125: the half rounds away from zero.
    assert_eq!(format_average_mood(1, 8), 13);
    // 2 / 3 = 0.666..
    assert_eq!(format_average_mood(2, 3), 67);
    // 1 / 3 = 0.333..
    assert_eq!(format_average_mood(1, 3), 33);
    assert_eq!(format_average_mood(0, 0), 0);
    assert_eq!(format_average_mood(7, 0), 0);
}

#[test]
fn median_takes_lower_middle_on_even_count() {
    assert_eq!(median_mood(&vec![4, 3, 2, 1]), 2);
    assert_eq!(median_mood(&vec![1, 5]), 1);
    assert_eq!(median_mood(&vec![5, 5, 1, 1, 1, 5]), 1);
    assert_eq!(median_mood(&vec![1, 5, 5]), 5);
    assert_eq!(median_mood(&vec![2]), 2);
    assert_eq!(median_mood(&vec![]), 0);
}

#[test]
fn counts_per_level() {
    let c = count_moods(&vec![5, 5, 4, 2, 2, 2]);
    assert_eq!((c.mood_1, c.mood_2, c.mood_3, c.mood_4, c.mood_5), (0, 3, 0, 1, 2));
}

#[test]
fn weekday_buckets_sum_to_total() {
    let entries: Vec<Entry> = (1..=10).map(|d| entry(d, 3, &[])).collect();
    let w = engine::weekday_stats(&entries);
    let total = w.monday.entry_count
        + w.tuesday.entry_count
        + w.wednesday.entry_count
        + w.thursday.entry_count
        + w.friday.entry_count
        + w.saturday.entry_count
        + w.sunday.entry_count;
    assert_eq!(total, 10);
    // 1 January 2024 is a Monday: days 1, 8 are Mondays, 6 is a Saturday.
    assert_eq!(w.monday.entry_count, 2);
    assert_eq!(w.saturday.entry_count, 1);
    assert_eq!(w.saturday.average_mood_hundredths, 300);
}

#[test]
fn empty_weekday_has_zero_summary() {
    // 1 January 2024 is a Monday.
    let entries = vec![entry(1, 5, &[])];
    let w = engine::weekday_stats(&entries);
    assert_eq!(w.monday.entry_count, 1);
    assert_eq!(w.sunday.entry_count, 0);
    assert_eq!(w.sunday.average_mood_hundredths, 0);
    assert_eq!(w.sunday.median_mood, 0);
    assert_eq!(w.sunday.mood_entry_count.mood_5, 0);
}

#[test]
fn shared_entry_counts_under_both_tags() {
    let entries = vec![
        entry(1, 3, &["a", "b"]),
        entry(2, 4, &["a"]),
        entry(3, 4, &["a"]),
        entry(4, 4, &["a"]),
        entry(5, 2, &["b"]),
        entry(6, 2, &["b"]),
        entry(7, 1, &[]),
    ];
    let stats = engine::tag_stats(&entries);
    assert_eq!(stats.len(), 2);
    let a = stats.iter().find(|s| s.tag_id == "a").unwrap();
    let b = stats.iter().find(|s| s.tag_id == "b").unwrap();
    assert_eq!(a.entry_count, 4);
    assert_eq!(a.mood_entry_count.mood_3, 1);
    assert_eq!(b.entry_count, 3);
    assert_eq!(b.mood_entry_count.mood_3, 1);
    assert!(stats.iter().all(|s| s.entry_count > 0));
}

#[test]
fn repeated_tag_on_one_entry_counts_once() {
    let entries = vec![entry(1, 2, &["a", "a"])];
    let stats = engine::tag_stats(&entries);
    assert_eq!(stats.len(), 1);
    assert_eq!(stats[0].entry_count, 1);
    assert_eq!(stats[0].median_mood, 2);
}

#[test]
fn weekdays_of_known_dates() {
    assert_eq!(weekday_of(&Date::new(2025, 12, 19).unwrap()), Weekday::Friday);
    assert_eq!(weekday_of(&Date::new(2000, 1, 1).unwrap()), Weekday::Saturday);
    assert_eq!(weekday_of(&Date::new(1970, 1, 1).unwrap()), Weekday::Thursday);
    assert_eq!(weekday_of(&Date::new(1, 1, 1).unwrap()), Weekday::Monday);
    assert_eq!(weekday_of(&Date::new(2024, 2, 29).unwrap()), Weekday::Thursday);
    assert_eq!(weekday_of(&Date::new(1600, 3, 1).unwrap()), Weekday::Wednesday);
    assert_eq!(weekday_of(&Date::new(9999, 12, 31).unwrap()), Weekday::Friday);
    assert_eq!(weekday_of(&Date::new(0, 12, 31).unwrap()), Weekday::Sunday);
    assert_eq!(weekday_of(&Date::new(0, 1, 1).unwrap()), Weekday::Saturday);
}

#[test]
fn calendar_validity() {
    assert!(Date::new(2024, 2, 29).is_some());
    assert!(Date::new(2023, 2, 29).is_none());
    assert!(Date::new(1900, 2, 29).is_none());
    assert!(Date::new(2000, 2, 29).is_some());
    assert!(Date::new(2025, 4, 31).is_none());
    assert!(Date::new(2025, 13, 1).is_none());
    assert!(Date::new(2025, 1, 0).is_none());
}

#[test]
fn weekdays_cycle_across_year_ends() {
    let order = [
        Weekday::Monday,
        Weekday::Tuesday,
        Weekday::Wednesday,
        Weekday::Thursday,
        Weekday::Friday,
        Weekday::Saturday,
        Weekday::Sunday,
    ];
    // 1 January 1896 was a Wednesday; walk through 1900 (not a leap year)
    // and 2000 (a leap year) stretches alike.
    for (start, first) in [((1896, 1, 1), 2usize), ((1999, 1, 1), 4usize)] {
        let mut d = Date::new(start.0, start.1, start.2).unwrap();
        for k in 0..2000usize {
            assert_eq!(weekday_of(&d), order[(first + k) % 7]);
            d = if d.day < days_in_month(d.year, d.month) {
                Date::new(d.year, d.month, d.day + 1).unwrap()
            } else if d.month < 12 {
                Date::new(d.year, d.month + 1, 1).unwrap()
            } else {
                Date::new(d.year + 1, 1, 1).unwrap()
            };
        }
    }
}

#[test]
fn parsing_dates() {
    assert_eq!(Date::parse("2025-12-19"), Date::new(2025, 12, 19));
    assert_eq!(Date::parse("0001-01-01"), Date::new(1, 1, 1));
    assert_eq!(Date::parse("2023-02-29"), None);
    assert_eq!(Date::parse("2025-1-19"), None);
    assert_eq!(Date::parse("2025/12/19"), None);
    assert_eq!(Date::parse("20a5-12-19"), None);
    assert_eq!(Date::parse(""), None);
}
