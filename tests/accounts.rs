use diarycomputer::category::Category;
use diarycomputer::date::Date;
use diarycomputer::engine::Entry;
use diarycomputer::error::APIError;
use diarycomputer::log::create_default_data;
use diarycomputer::store::Store;
use diarycomputer::tag::{create_tag, edit_tag, CreateTag, EditTag, Tag};
use diarycomputer::user::{
    create_user, delete_user, update_password, update_user, CreateUser, UpdatePassword,
    UpdateUser, User,
};
use diarycomputer::auth::Session;

fn user(id: &str, email: &str) -> User {
    User {
        id: id.to_string(),
        created_at: 0,
        name: id.to_string(),
        email: email.to_string(),
        password: "h".to_string(),
        invite: None,
    }
}

fn store() -> Store {
    Store {
        users: vec![user("u1", "a@example.com"), user("u2", "b@example.com")],
        sessions: vec![Session {
            id: "s1".to_string(),
            user_id: "u1".to_string(),
            created_at: 0,
            accessed_at: 0,
            ip_address: "ip".to_string(),
            user_agent: "ua".to_string(),
        }],
        categories: vec![
            Category { id: "c1".to_string(), name: "One".to_string(), user_id: "u1".to_string(), created_at: 0 },
            Category { id: "c2".to_string(), name: "Two".to_string(), user_id: "u1".to_string(), created_at: 0 },
        ],
        tags: vec![Tag {
            id: "t1".to_string(),
            user_id: "u1".to_string(),
            created_at: 0,
            name: "Run".to_string(),
            color: "red".to_string(),
            category_id: "c1".to_string(),
        }],
        invites: vec![],
        entries: vec![Entry {
            id: "e1".to_string(),
            user_id: "u1".to_string(),
            date: Date::new(2024, 5, 5).unwrap(),
            mood: 3,
            tag_ids: vec!["t1".to_string()],
        }],
    }
}

#[test]
fn default_data_layout() {
    let mut s = store();
    assert_eq!(create_default_data(&mut s, "ghost".to_string(), 5), Err(APIError::DatabaseError));
    assert_eq!(s.categories.len(), 2);
    assert_eq!(create_default_data(&mut s, "u2".to_string(), 5), Ok(true));
    assert_eq!(s.categories.len(), 4);
    assert_eq!(s.categories[2].name, "Activities");
    assert_eq!(s.categories[3].name, "Tags");
    let names: Vec<&str> = s.tags[1..].iter().map(|t| t.name.as_str()).collect();
    assert_eq!(names, vec!["Work", "Movie", "Exercise", "Read", "Shopping", "Gaming", "Travel", "Important", "Sick"]);
    assert_eq!(s.tags[8].color, "blue");
    assert_eq!(s.tags[9].color, "red");
    assert_eq!(s.tags[1].category_id, s.categories[2].id);
    assert_eq!(s.tags[7].category_id, s.categories[3].id);
    assert!(s.tags[1..].iter().all(|t| t.user_id == "u2" && t.created_at == 5));
}

#[test]
fn registering_accounts() {
    let mut s = store();
    let taken = CreateUser {
        name: "Ann".to_string(),
        email: "a@example.com".to_string(),
        password: "password".to_string(),
        invite: None,
    };
    assert_eq!(create_user(&mut s, taken, 4, 9).unwrap_err(), APIError::EmailAlreadyInUse);
    let invalid = CreateUser {
        name: "Ann".to_string(),
        email: "new@example.com".to_string(),
        password: "short".to_string(),
        invite: None,
    };
    assert_eq!(create_user(&mut s, invalid, 4, 9).unwrap_err(), APIError::BadRequest);
    let bad_cost = CreateUser {
        name: "Ann".to_string(),
        email: "new@example.com".to_string(),
        password: "password".to_string(),
        invite: None,
    };
    assert_eq!(create_user(&mut s, bad_cost, 99, 9).unwrap_err(), APIError::InternalServerError);
    assert_eq!(s.users.len(), 2);

    let fresh = CreateUser {
        name: "Ann".to_string(),
        email: "new@example.com".to_string(),
        password: "password".to_string(),
        invite: Some("CODE".to_string()),
    };
    let d = create_user(&mut s, fresh, 4, 9).unwrap();
    assert_eq!(d.name, "Ann");
    assert_eq!(d.invite.as_deref(), Some("CODE"));
    assert_eq!(d.created_at, 9);
    assert_eq!(s.users.len(), 3);
    assert_eq!(s.users[2].id, d.id);
    assert!(bcrypt::verify("password", &s.users[2].password).unwrap());
    assert_eq!(s.categories.len(), 4);
    assert_eq!(s.tags.len(), 10);
}

#[test]
fn changing_account_details() {
    let mut s = store();
    let bad = UpdateUser { name: "X".to_string(), email: "no".to_string() };
    assert_eq!(update_user(&mut s, "u1", bad).unwrap_err(), APIError::BadRequest);
    let clash = UpdateUser { name: "X".to_string(), email: "b@example.com".to_string() };
    assert_eq!(update_user(&mut s, "u1", clash).unwrap_err(), APIError::EmailAlreadyInUse);
    let same = UpdateUser { name: "X".to_string(), email: "a@example.com".to_string() };
    assert_eq!(update_user(&mut s, "u1", same), Ok(true));
    assert_eq!(s.users[0].name, "X");
    let missing = UpdateUser { name: "Y".to_string(), email: "y@example.com".to_string() };
    assert_eq!(update_user(&mut s, "nobody", missing), Ok(false));
}

#[test]
fn changing_passwords() {
    let mut s = store();
    let p = UpdatePassword { password: "new secret".to_string() };
    assert_eq!(update_password(&mut s, "u2", p, 4), Ok(true));
    assert!(bcrypt::verify("new secret", &s.users[1].password).unwrap());
    assert_eq!(s.users[0].password, "h");
    let q = UpdatePassword { password: "new secret".to_string() };
    assert_eq!(update_password(&mut s, "u2", q, 1).unwrap_err(), APIError::InternalServerError);
    let r = UpdatePassword { password: "new secret".to_string() };
    assert_eq!(update_password(&mut s, "nobody", r, 4), Ok(false));
}

#[test]
fn deleting_accounts() {
    let mut s = store();
    assert_eq!(delete_user(&mut s, "nobody").unwrap_err(), APIError::DatabaseError);
    assert_eq!(delete_user(&mut s, "u1"), Ok(true));
    assert_eq!(s.users.len(), 1);
    assert!(s.sessions.is_empty());
    assert!(s.entries.is_empty());
    assert!(s.tags.is_empty());
    assert!(s.categories.is_empty());
}

#[test]
fn creating_and_editing_tags() {
    let mut s = store();
    let make = |category: &str, user: &str, color: &str| CreateTag {
        name: "Swim".to_string(),
        color: color.to_string(),
        category_id: category.to_string(),
        user_id: user.to_string(),
    };
    assert_eq!(create_tag(&mut s, make("c1", "u1", ""), 3).unwrap_err(), APIError::BadRequest);
    assert_eq!(create_tag(&mut s, make("c1", "ghost", "red"), 3).unwrap_err(), APIError::UserNotFound);
    assert_eq!(create_tag(&mut s, make("c9", "u1", "red"), 3).unwrap_err(), APIError::CategoryNotFound);
    let t = create_tag(&mut s, make("c2", "u1", "blue"), 3).unwrap();
    assert_eq!(t.category_id, "c2");
    assert_eq!(s.tags.len(), 2);

    let edit = |id: &str, category: Option<&str>| EditTag {
        id: id.to_string(),
        name: "Jog".to_string(),
        color: "green".to_string(),
        category_id: category.map(|c| c.to_string()),
        user_id: "u1".to_string(),
    };
    assert_eq!(edit_tag(&mut s, edit("t9", None)).unwrap_err(), APIError::TagNotFound);
    assert_eq!(edit_tag(&mut s, edit("t1", Some("c9"))).unwrap_err(), APIError::CategoryNotFound);
    let kept = edit_tag(&mut s, edit("t1", None)).unwrap();
    assert_eq!(kept.category_id, "c1");
    assert_eq!(kept.name, "Jog");
    assert_eq!(s.tags[0].color, "green");
    let moved = edit_tag(&mut s, edit("t1", Some("c2"))).unwrap();
    assert_eq!(moved.category_id, "c2");
    assert_eq!(s.tags[0].category_id, "c2");
}
