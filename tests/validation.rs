use diarycomputer::category::{CreateCategory, EditCategory};
use diarycomputer::tag::{CreateTag, EditTag};
use diarycomputer::user::{AuthUser, CreateUser, UpdatePassword, UpdateUser};
use diarycomputer::validation::length_within;

#[test]
fn length_limits_count_characters() {
    assert!(length_within(&"abc".to_string(), 1, 3));
    assert!(!length_within(&"abcd".to_string(), 1, 3));
    assert!(!length_within(&String::new(), 1, 3));
    // Four characters, eight bytes.
    assert!(length_within(&"éééé".to_string(), 1, 4));
}

#[test]
fn account_input() {
    let ok = CreateUser {
        name: "Ada".to_string(),
        email: "ada@example.com".to_string(),
        password: "password".to_string(),
        invite: None,
    };
    assert!(ok.validate());
    let bad_email = CreateUser { email: "not an address".to_string(), ..ok };
    assert!(!bad_email.validate());
    let short = CreateUser {
        name: "Ada".to_string(),
        email: "ada@example.com".to_string(),
        password: "123456".to_string(),
        invite: None,
    };
    assert!(!short.validate());
    assert!(AuthUser { email: "a@b.org".to_string(), password: "1234567".to_string() }.validate());
    assert!(!AuthUser { email: String::new(), password: "1234567".to_string() }.validate());
    assert!(UpdateUser { name: "B".to_string(), email: "b@example.com".to_string() }.validate());
    assert!(!UpdateUser { name: String::new(), email: "b@example.com".to_string() }.validate());
    assert!(!UpdatePassword { password: "x".repeat(73) }.validate());
    assert!(UpdatePassword { password: "x".repeat(72) }.validate());
}

#[test]
fn category_and_tag_input() {
    assert!(CreateCategory { name: "Work".to_string(), user_id: "u".to_string() }.validate());
    assert!(!CreateCategory { name: "Work".to_string(), user_id: String::new() }.validate());
    assert!(EditCategory { id: "c".to_string(), name: "W".to_string(), user_id: "u".to_string() }.validate());
    let tag = CreateTag {
        name: "Run".to_string(),
        color: "x".repeat(16),
        category_id: "c".to_string(),
        user_id: "u".to_string(),
    };
    assert!(tag.validate());
    assert!(!CreateTag { color: "x".repeat(17), ..tag }.validate());
    let edit = EditTag {
        id: "t".to_string(),
        name: "Run".to_string(),
        color: "red".to_string(),
        category_id: None,
        user_id: "u".to_string(),
    };
    assert!(edit.validate());
    assert!(!EditTag { category_id: Some(String::new()), ..edit }.validate());
}
