use diarycomputer::auth::{get_all_user_sessions, get_user_session_by_id, Session};
use diarycomputer::category::{
    get_all_categories, get_category, get_category_with_tags, get_user_categories_with_tags,
    Category,
};
use diarycomputer::error::APIError;
use diarycomputer::invite::{get_invite, Invite};
use diarycomputer::store::Store;
use diarycomputer::tag::{delete_all_category_tags, get_category_tags, get_tag, get_tags, Tag};
use diarycomputer::user::{get_password_hash, get_user, get_user_id, user_count, User};

fn user(id: &str, email: &str) -> User {
    User {
        id: id.to_string(),
        created_at: 1,
        name: format!("name of {id}"),
        email: email.to_string(),
        password: format!("hash of {id}"),
        invite: None,
    }
}

fn category(id: &str, user_id: &str) -> Category {
    Category { id: id.to_string(), name: format!("cat {id}"), user_id: user_id.to_string(), created_at: 2 }
}

fn tag(id: &str, user_id: &str, category_id: &str) -> Tag {
    Tag {
        id: id.to_string(),
        user_id: user_id.to_string(),
        created_at: 3,
        name: format!("tag {id}"),
        color: "base".to_string(),
        category_id: category_id.to_string(),
    }
}

fn session(id: &str, user_id: &str, accessed_at: i64) -> Session {
    Session {
        id: id.to_string(),
        user_id: user_id.to_string(),
        created_at: 0,
        accessed_at,
        ip_address: "127.0.0.1".to_string(),
        user_agent: "test".to_string(),
    }
}

fn store() -> Store {
    Store {
        users: vec![user("u1", "a@example.com"), user("u2", "b@example.com")],
        sessions: vec![session("s1", "u1", 10), session("s2", "u2", 5), session("s3", "u1", 30), session("s4", "u1", 20)],
        categories: vec![category("c1", "u1"), category("c2", "u1"), category("c3", "u2")],
        tags: vec![tag("t1", "u1", "c1"), tag("t2", "u1", "c2"), tag("t3", "u1", "c1"), tag("t4", "u2", "c3")],
        invites: vec![Invite { id: "i1".to_string(), created_at: 0, code: "WELCOME".to_string(), used: false }],
        entries: vec![],
    }
}

#[test]
fn users_by_email_and_id() {
    let s = store();
    assert_eq!(get_user_id(&s, "b@example.com").unwrap(), "u2");
    assert_eq!(get_user_id(&s, "c@example.com").unwrap_err(), APIError::UserNotFound);
    let details = get_user(&s, "u1").unwrap();
    assert_eq!(details.email, "a@example.com");
    assert_eq!(details.name, "name of u1");
    assert_eq!(get_user(&s, "nobody").unwrap_err(), APIError::UserNotFound);
    assert_eq!(get_password_hash(&s, "u2").unwrap(), "hash of u2");
    assert_eq!(get_password_hash(&s, "nobody").unwrap_err(), APIError::UserNotFound);
    assert_eq!(user_count(&s), 2);
}

#[test]
fn sessions_lookup_and_order() {
    let s = store();
    assert_eq!(get_user_session_by_id(&s, "s2").unwrap().user_id, "u2");
    assert_eq!(get_user_session_by_id(&s, "s9").unwrap_err(), APIError::SessionNotFound);
    let ids: Vec<String> = get_all_user_sessions(&s, "u1").unwrap().into_iter().map(|x| x.id).collect();
    assert_eq!(ids, vec!["s3", "s4", "s1"]);
    assert!(get_all_user_sessions(&s, "nobody").unwrap().is_empty());
}

#[test]
fn categories_and_their_tags() {
    let s = store();
    assert_eq!(get_category(&s, "c2", "u1").unwrap().name, "cat c2");
    assert_eq!(get_category(&s, "c3", "u1").unwrap_err(), APIError::CategoryNotFound);
    let names: Vec<String> = get_all_categories(&s, "u1").unwrap().into_iter().map(|c| c.id).collect();
    assert_eq!(names, vec!["c1", "c2"]);
    assert_eq!(get_all_categories(&s, "nobody").unwrap_err(), APIError::UserNotFound);

    let tags: Vec<String> = get_category_tags(&s, "c1", "u1").unwrap().into_iter().map(|t| t.id).collect();
    assert_eq!(tags, vec!["t1", "t3"]);
    assert_eq!(get_category_tags(&s, "c1", "nobody").unwrap_err(), APIError::UserNotFound);
    assert_eq!(get_category_tags(&s, "c3", "u1").unwrap_err(), APIError::CategoryNotFound);

    let with = get_category_with_tags(&s, "c1", "u1").unwrap();
    assert_eq!(with.id, "c1");
    assert_eq!(with.tags.len(), 2);
    assert_eq!(get_category_with_tags(&s, "c9", "u1").unwrap_err(), APIError::CategoryNotFound);

    let all = get_user_categories_with_tags(&s, "u1").unwrap();
    assert_eq!(all.len(), 2);
    assert_eq!(all[1].tags[0].id, "t2");
    assert_eq!(get_user_categories_with_tags(&s, "nobody").unwrap_err(), APIError::DatabaseError);
}

#[test]
fn category_with_tags_of_missing_user() {
    let mut s = store();
    s.categories.push(category("c7", "ghost"));
    assert_eq!(get_category_with_tags(&s, "c7", "ghost").unwrap_err(), APIError::DatabaseError);
}

#[test]
fn tags_lookup() {
    let s = store();
    assert_eq!(get_tag(&s, "t3", "u1").unwrap().category_id, "c1");
    assert_eq!(get_tag(&s, "t4", "u1").unwrap_err(), APIError::TagNotFound);
    assert_eq!(get_tag(&s, "t1", "nobody").unwrap_err(), APIError::UserNotFound);
    let wanted = vec!["t4".to_string(), "t3".to_string(), "t1".to_string()];
    let ids: Vec<String> = get_tags(&s, &wanted, "u1").unwrap().into_iter().map(|t| t.id).collect();
    assert_eq!(ids, vec!["t1", "t3"]);
    assert_eq!(get_tags(&s, &wanted, "nobody").unwrap_err(), APIError::UserNotFound);
}

#[test]
fn deleting_category_tags() {
    let mut s = store();
    assert_eq!(delete_all_category_tags(&mut s, "c1", "nobody").unwrap_err(), APIError::UserNotFound);
    assert_eq!(delete_all_category_tags(&mut s, "c3", "u1").unwrap_err(), APIError::CategoryNotFound);
    assert_eq!(s.tags.len(), 4);
    assert!(delete_all_category_tags(&mut s, "c1", "u1").unwrap());
    let ids: Vec<String> = s.tags.iter().map(|t| t.id.clone()).collect();
    assert_eq!(ids, vec!["t2", "t4"]);
}

#[test]
fn invites_by_code() {
    let s = store();
    assert_eq!(get_invite(&s, "WELCOME").unwrap().id, "i1");
    assert_eq!(get_invite(&s, "welcome").unwrap_err(), APIError::InviteNotFound);
}
