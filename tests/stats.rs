use diarycomputer::date::{days_in_month, Date};
use diarycomputer::engine;
use diarycomputer::engine::{Entry, TagStats};

fn next_day(d: Date) -> Date {
    if d.day < days_in_month(d.year, d.month) {
        Date::new(d.year, d.month, d.day + 1).unwrap()
    } else if d.month < 12 {
        Date::new(d.year, d.month + 1, 1).unwrap()
    } else {
        Date::new(d.year + 1, 1, 1).unwrap()
    }
}

fn entry(date: Date, mood: i32, tags: Vec<String>) -> Entry {
    Entry {
        id: format!("{}-{}-{}", date.year, date.month, date.day),
        user_id: "user".to_string(),
        date,
        mood,
        tag_ids: tags,
    }
}

/// Entries on consecutive days from `start`, `count` of each mood in turn.
fn consecutive(start: Date, groups: &[(i32, i32)]) -> Vec<Entry> {
    let mut date = start;
    let mut entries = Vec::new();
    for &(mood, count) in groups {
        for _ in 0..count {
            entries.push(entry(date, mood, vec![]));
            date = next_day(date);
        }
    }
    entries
}

fn average(hundredths: u32) -> f64 {
    hundredths as f64 / 100.0
}

fn find<'a>(stats: &'a [TagStats], tag: &str) -> &'a TagStats {
    stats.iter().find(|s| s.tag_id == tag).unwrap()
}

#[test]
fn mood_stats() {
    let entries = consecutive(
        Date::new(2025, 12, 19).unwrap(),
        &[(5, 2), (4, 7), (3, 12), (2, 3), (1, 1)],
    );
    let stats = engine::mood_stats(&entries);

    assert_eq!(stats.entry_count, 25);
    assert_eq!(average(stats.average_mood_hundredths), 3.24);
    assert_eq!(stats.median_mood, 3);

    assert_eq!(stats.mood_entry_count.mood_1, 1);
    assert_eq!(stats.mood_entry_count.mood_2, 3);
    assert_eq!(stats.mood_entry_count.mood_3, 12);
    assert_eq!(stats.mood_entry_count.mood_4, 7);
    assert_eq!(stats.mood_entry_count.mood_5, 2);
}

#[test]
fn mood_stats_no_entries() {
    let entries: Vec<Entry> = vec![];
    let stats = engine::mood_stats(&entries);
    assert_eq!(stats.entry_count, 0);
    assert_eq!(average(stats.average_mood_hundredths), 0.0);
    assert_eq!(stats.median_mood, 0);
    let tags = engine::tag_stats(&entries);
    assert!(tags.is_empty());
    let weekdays = engine::weekday_stats(&entries);
    assert_eq!(weekdays.monday.entry_count, 0);
    assert_eq!(weekdays.tuesday.entry_count, 0);
    assert_eq!(weekdays.wednesday.entry_count, 0);
    assert_eq!(weekdays.thursday.entry_count, 0);
    assert_eq!(weekdays.friday.entry_count, 0);
    assert_eq!(weekdays.saturday.entry_count, 0);
    assert_eq!(weekdays.sunday.entry_count, 0);
}

#[test]
fn mood_stats_one_entry() {
    let entries = vec![entry(Date::new(2025, 10, 17).unwrap(), 4, vec![])];
    let stats = engine::mood_stats(&entries);

    assert_eq!(stats.entry_count, 1);
    assert_eq!(average(stats.average_mood_hundredths), 4.0);
    assert_eq!(stats.median_mood, 4);
}

#[test]
fn tag_stats() {
    let tag1 = "tag-1".to_string();
    let tag2 = "tag-2".to_string();
    let mut year = 2025;
    let mut entries = Vec::new();
    let mut add = |mood: i32, count: i32, tags: Vec<String>| {
        for _ in 0..count {
            entries.push(entry(Date::new(year, 10, 17).unwrap(), mood, tags.clone()));
            year += 1;
        }
    };
    add(5, 2, vec![tag1.clone()]);
    add(5, 3, vec![tag2.clone()]);
    add(5, 1, vec![tag1.clone(), tag2.clone()]);
    add(4, 4, vec![tag1.clone()]);
    add(2, 2, vec![tag2.clone()]);
    add(1, 2, vec![tag1.clone(), tag2.clone()]);

    let stats = engine::tag_stats(&entries);
    assert_eq!(stats.len(), 2);

    let tag1_stats = find(&stats, &tag1);
    assert_eq!(tag1_stats.entry_count, 9);
    assert_eq!(average(tag1_stats.average_mood_hundredths), 3.67);
    assert_eq!(tag1_stats.mood_entry_count.mood_1, 2);
    assert_eq!(tag1_stats.mood_entry_count.mood_2, 0);
    assert_eq!(tag1_stats.mood_entry_count.mood_3, 0);
    assert_eq!(tag1_stats.mood_entry_count.mood_4, 4);
    assert_eq!(tag1_stats.mood_entry_count.mood_5, 3);

    let tag2_stats = find(&stats, &tag2);
    assert_eq!(tag2_stats.entry_count, 8);
    assert_eq!(average(tag2_stats.average_mood_hundredths), 3.25);
    assert_eq!(tag2_stats.mood_entry_count.mood_1, 2);
    assert_eq!(tag2_stats.mood_entry_count.mood_2, 2);
    assert_eq!(tag2_stats.mood_entry_count.mood_3, 0);
    assert_eq!(tag2_stats.mood_entry_count.mood_4, 0);
    assert_eq!(tag2_stats.mood_entry_count.mood_5, 4);
}

#[test]
fn weekday_stats() {
    // 19 December 2025 is a Friday.
    let entries = consecutive(
        Date::new(2025, 12, 19).unwrap(),
        &[(5, 2), (4, 7), (3, 12), (2, 3), (1, 1)],
    );
    let stats = engine::weekday_stats(&entries);
    assert_eq!(stats.friday.entry_count, 4);
    assert_eq!(average(stats.friday.average_mood_hundredths), 3.5);
    assert_eq!(stats.saturday.entry_count, 4);
    assert_eq!(average(stats.saturday.average_mood_hundredths), 3.5);
    assert_eq!(stats.sunday.entry_count, 4);
    assert_eq!(average(stats.sunday.average_mood_hundredths), 3.0);
    assert_eq!(stats.monday.entry_count, 4);
    assert_eq!(average(stats.monday.average_mood_hundredths), 2.75);
    assert_eq!(stats.tuesday.entry_count, 3);
    assert_eq!(average(stats.tuesday.average_mood_hundredths), 3.33);
    assert_eq!(stats.wednesday.entry_count, 3);
    assert_eq!(average(stats.wednesday.average_mood_hundredths), 3.33);
    assert_eq!(stats.wednesday.median_mood, 3);
    assert_eq!(stats.thursday.entry_count, 3);
    assert_eq!(average(stats.thursday.average_mood_hundredths), 3.33);
}

#[test]
fn median_even_number_of_entries() {
    let entries: Vec<Entry> = [1, 2, 3, 4]
        .iter()
        .enumerate()
        .map(|(i, mood)| entry(Date::new(2025, 10, 11 + i as u32).unwrap(), *mood, vec![]))
        .collect();
    let stats = engine::mood_stats(&entries);

    assert_eq!(stats.entry_count, 4);
    assert_eq!(average(stats.average_mood_hundredths), 2.5);
    assert_eq!(stats.median_mood, 2);
}

#[test]
fn median_is_high() {
    let entries = consecutive(Date::new(2025, 11, 1).unwrap(), &[(5, 10), (1, 1)]);
    let stats = engine::mood_stats(&entries);

    assert_eq!(stats.entry_count, 11);
    assert_eq!(average(stats.average_mood_hundredths), 4.64);
    assert_eq!(stats.median_mood, 5);
}
