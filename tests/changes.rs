use diarycomputer::auth::{
    create_user_session, delete_all_user_sessions, delete_user_session, start_session, Session,
    SessionMetadata, UserCredentials,
};
use diarycomputer::category::{
    create_category, delete_category, edit_category, Category, CreateCategory, EditCategory,
};
use diarycomputer::date::Date;
use diarycomputer::engine::{user_mood_stats, user_tag_stats, user_weekday_stats, Entry};
use diarycomputer::error::APIError;
use diarycomputer::health::{health_check, DEFAULT_THRESHOLD_MS};
use diarycomputer::invite::{use_invite, Invite};
use diarycomputer::log::delete_all_user_data;
use diarycomputer::metrics::{metrics_at, HOUR_MS};
use diarycomputer::store::Store;
use diarycomputer::tag::{delete_tag, Tag};
use diarycomputer::user::{active_user_count, User};

const PASSWORD: &str = "correct horse";

fn user(id: &str, email: &str, hash: &str) -> User {
    User {
        id: id.to_string(),
        created_at: 1,
        name: id.to_string(),
        email: email.to_string(),
        password: hash.to_string(),
        invite: None,
    }
}

fn session(id: &str, user_id: &str, accessed_at: i64) -> Session {
    Session {
        id: id.to_string(),
        user_id: user_id.to_string(),
        created_at: 0,
        accessed_at,
        ip_address: "10.0.0.1".to_string(),
        user_agent: "agent".to_string(),
    }
}

fn tag(id: &str, user_id: &str, category_id: &str) -> Tag {
    Tag {
        id: id.to_string(),
        user_id: user_id.to_string(),
        created_at: 0,
        name: id.to_string(),
        color: "red".to_string(),
        category_id: category_id.to_string(),
    }
}

fn entry(user_id: &str, day: u32, mood: i32, tags: &[&str]) -> Entry {
    Entry {
        id: format!("{user_id}-{day}"),
        user_id: user_id.to_string(),
        date: Date::new(2024, 1, day).unwrap(),
        mood,
        tag_ids: tags.iter().map(|t| t.to_string()).collect(),
    }
}

fn store() -> Store {
    Store {
        users: vec![user("u1", "a@example.com", "not a bcrypt hash"), user("u2", "b@example.com", "x")],
        sessions: vec![session("s1", "u1", 100), session("s2", "u2", 5), session("s3", "u1", 50)],
        categories: vec![
            Category { id: "c1".to_string(), name: "One".to_string(), user_id: "u1".to_string(), created_at: 0 },
            Category { id: "c2".to_string(), name: "Two".to_string(), user_id: "u2".to_string(), created_at: 0 },
        ],
        tags: vec![tag("t1", "u1", "c1"), tag("t2", "u2", "c2"), tag("t3", "u1", "c1")],
        invites: vec![
            Invite { id: "i1".to_string(), created_at: 0, code: "OPEN".to_string(), used: false },
            Invite { id: "i2".to_string(), created_at: 0, code: "DONE".to_string(), used: true },
        ],
        entries: vec![
            entry("u1", 1, 5, &["t1"]),
            entry("u2", 2, 1, &[]),
            entry("u1", 3, 4, &["t1", "t3"]),
            entry("u1", 4, 2, &[]),
        ],
    }
}

fn metadata() -> SessionMetadata {
    SessionMetadata { ip_address: "192.0.2.1".to_string(), user_agent: "browser".to_string() }
}

#[test]
fn stats_of_one_user() {
    let s = store();
    let m = user_mood_stats(&s, "u1").unwrap();
    assert_eq!(m.entry_count, 3);
    assert_eq!(m.average_mood_hundredths, 367);
    assert_eq!(m.median_mood, 4);
    assert_eq!(user_mood_stats(&s, "nobody").unwrap_err(), APIError::UserNotFound);

    let t = user_tag_stats(&s, "u1").unwrap();
    assert_eq!(t.len(), 2);
    let t1 = t.iter().find(|x| x.tag_id == "t1").unwrap();
    assert_eq!(t1.entry_count, 2);
    assert_eq!(t1.average_mood_hundredths, 450);
    assert_eq!(user_tag_stats(&s, "nobody").unwrap_err(), APIError::UserNotFound);

    // 1, 3 and 4 January 2024: Monday, Wednesday, Thursday.
    let w = user_weekday_stats(&s, "u1").unwrap();
    assert_eq!(w.monday.entry_count, 1);
    assert_eq!(w.wednesday.median_mood, 4);
    assert_eq!(w.thursday.mood_entry_count.mood_2, 1);
    assert_eq!(w.tuesday.entry_count, 0);
    assert_eq!(user_weekday_stats(&s, "nobody").unwrap_err(), APIError::UserNotFound);
}

#[test]
fn login_outcomes() {
    let mut s = store();
    let wrong_user = UserCredentials { email: "z@example.com".to_string(), password: PASSWORD.to_string() };
    assert_eq!(create_user_session(&mut s, wrong_user, metadata(), 7).unwrap_err(), APIError::UserNotFound);
    // The stored hash of u1 cannot be read.
    let unreadable = UserCredentials { email: "a@example.com".to_string(), password: PASSWORD.to_string() };
    assert_eq!(create_user_session(&mut s, unreadable, metadata(), 7).unwrap_err(), APIError::InternalServerError);
    assert_eq!(s.sessions.len(), 3);

    let hash = bcrypt::hash(PASSWORD, 4).unwrap();
    s.users[1].password = hash;
    let wrong_password = UserCredentials { email: "b@example.com".to_string(), password: "wrong one".to_string() };
    assert_eq!(create_user_session(&mut s, wrong_password, metadata(), 7).unwrap_err(), APIError::InvalidPassword);
    let good = UserCredentials { email: "b@example.com".to_string(), password: PASSWORD.to_string() };
    let opened = create_user_session(&mut s, good, metadata(), 7).unwrap();
    assert_eq!(opened.user_id, "u2");
    assert_eq!(opened.created_at, 7);
    assert_eq!(opened.accessed_at, 7);
    assert_eq!(opened.ip_address, "192.0.2.1");
    assert_eq!(s.sessions.len(), 4);
    assert_eq!(s.sessions[3].id, opened.id);
}

#[test]
fn session_start_by_check() {
    let mut s = store();
    let none = start_session(&mut s, "u1".to_string(), None, metadata(), "n".to_string(), 3);
    assert_eq!(none.unwrap_err(), APIError::InternalServerError);
    let no = start_session(&mut s, "u1".to_string(), Some(false), metadata(), "n".to_string(), 3);
    assert_eq!(no.unwrap_err(), APIError::InvalidPassword);
    let yes = start_session(&mut s, "u1".to_string(), Some(true), metadata(), "n".to_string(), 3).unwrap();
    assert_eq!(yes.id, "n");
    assert_eq!(s.sessions.len(), 4);
}

#[test]
fn ending_sessions() {
    let mut s = store();
    assert_eq!(delete_user_session(&mut s, "s2"), Ok(true));
    assert_eq!(delete_user_session(&mut s, "s2"), Ok(false));
    assert_eq!(s.sessions.len(), 2);
    assert_eq!(delete_all_user_sessions(&mut s, "u1"), Ok(true));
    assert!(s.sessions.is_empty());
    assert_eq!(delete_all_user_sessions(&mut s, "u1"), Ok(false));
}

#[test]
fn redeeming_invites() {
    let mut s = store();
    let v = use_invite(&mut s, "OPEN").unwrap();
    assert!(v.used);
    assert_eq!(v.id, "i1");
    assert!(s.invites[0].used);
    assert_eq!(use_invite(&mut s, "OPEN").unwrap_err(), APIError::InviteUsed);
    assert_eq!(use_invite(&mut s, "DONE").unwrap_err(), APIError::InviteUsed);
    assert_eq!(use_invite(&mut s, "NONE").unwrap_err(), APIError::InviteNotFound);
}

#[test]
fn active_users_and_metrics() {
    let mut s = store();
    assert_eq!(active_user_count(&s, 0), 2);
    assert_eq!(active_user_count(&s, 6), 1);
    assert_eq!(active_user_count(&s, 101), 0);
    // A repeated account id counts once.
    s.users.push(user("u1", "c@example.com", "h"));
    assert_eq!(active_user_count(&s, 0), 2);

    let now = 10 * 24 * HOUR_MS;
    s.sessions = vec![session("a", "u1", now - 10), session("b", "u2", now - 2 * HOUR_MS)];
    let m = metrics_at(&s, now);
    assert_eq!(m.total_users, 3);
    assert_eq!(m.active_1h, 1);
    assert_eq!(m.active_24h, 2);
    assert_eq!(m.active_7d, 2);
    assert_eq!(m.active_30d, 2);
}

#[test]
fn health_status_levels() {
    assert_eq!(health_check(true, 3, 20, DEFAULT_THRESHOLD_MS).status, "ok");
    assert_eq!(health_check(true, 3, 101, DEFAULT_THRESHOLD_MS).status, "degraded");
    assert_eq!(health_check(true, 3, 100, DEFAULT_THRESHOLD_MS).status, "ok");
    let down = health_check(false, 3, 5, DEFAULT_THRESHOLD_MS);
    assert_eq!(down.status, "critical");
    assert!(!down.database.connected);
    assert_eq!(down.database.response_time_ms, 3);
    assert_eq!(down.response_time_ms, 5);
}

#[test]
fn category_changes() {
    let mut s = store();
    let bad = CreateCategory { name: String::new(), user_id: "u1".to_string() };
    assert_eq!(create_category(&mut s, bad, 9).unwrap_err(), APIError::BadRequest);
    let ghost = CreateCategory { name: "New".to_string(), user_id: "ghost".to_string() };
    assert_eq!(create_category(&mut s, ghost, 9).unwrap_err(), APIError::UserNotFound);
    let made = create_category(&mut s, CreateCategory { name: "New".to_string(), user_id: "u1".to_string() }, 9).unwrap();
    assert_eq!(made.created_at, 9);
    assert_eq!(s.categories.len(), 3);
    assert_eq!(s.categories[2].id, made.id);

    let renamed = edit_category(&mut s, EditCategory { id: "c1".to_string(), name: "Uno".to_string(), user_id: "u1".to_string() }).unwrap();
    assert_eq!(renamed.name, "Uno");
    assert_eq!(s.categories[0].name, "Uno");
    let other = EditCategory { id: "c2".to_string(), name: "Mine".to_string(), user_id: "u1".to_string() };
    assert_eq!(edit_category(&mut s, other).unwrap_err(), APIError::CategoryNotFound);
    assert_eq!(s.categories[1].name, "Two");
    let long = EditCategory { id: "c1".to_string(), name: "x".repeat(256), user_id: "u1".to_string() };
    assert_eq!(edit_category(&mut s, long).unwrap_err(), APIError::BadRequest);

    assert_eq!(delete_category(&mut s, "c1", "nobody").unwrap_err(), APIError::UserNotFound);
    assert_eq!(delete_category(&mut s, "c2", "u1").unwrap_err(), APIError::CategoryNotFound);
    assert_eq!(delete_category(&mut s, "c1", "u1"), Ok(true));
    assert_eq!(s.categories.len(), 2);
    let tags: Vec<String> = s.tags.iter().map(|t| t.id.clone()).collect();
    assert_eq!(tags, vec!["t2"]);
}

#[test]
fn tag_removal() {
    let mut s = store();
    assert_eq!(delete_tag(&mut s, "t1", "nobody").unwrap_err(), APIError::UserNotFound);
    assert_eq!(delete_tag(&mut s, "t2", "u1"), Ok(false));
    assert_eq!(delete_tag(&mut s, "t1", "u1"), Ok(true));
    assert_eq!(s.tags.len(), 2);
}

#[test]
fn removing_user_data() {
    let mut s = store();
    assert_eq!(delete_all_user_data(&mut s, "nobody").unwrap_err(), APIError::UserNotFound);
    assert_eq!(delete_all_user_data(&mut s, "u1"), Ok(true));
    assert_eq!(s.entries.len(), 1);
    assert_eq!(s.entries[0].user_id, "u2");
    assert_eq!(s.tags.len(), 1);
    assert_eq!(s.categories.len(), 1);
    assert_eq!(s.users.len(), 2);
    assert_eq!(s.sessions.len(), 3);
}
