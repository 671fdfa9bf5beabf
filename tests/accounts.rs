use bord::errors::ApiError;
use bord::follow::{follow_user, unfollow_user};
use bord::users::{validate_bio, validate_new_password, validate_new_user};

fn bad_request_text(r: Result<(), ApiError>) -> String {
    match r {
        Err(ApiError::BadRequest(m)) => m,
        _ => panic!("expected a bad request"),
    }
}

#[test]
fn new_user_credentials_are_checked_in_order() {
    assert!(validate_new_user("ann", "pw1").is_ok());
    assert_eq!(bad_request_text(validate_new_user("", "")), "Username is required");
    assert_eq!(bad_request_text(validate_new_user("ab", "pw1")), "Username must be 3-50 characters");
    assert_eq!(
        bad_request_text(validate_new_user(&"x".repeat(51), "pw1")),
        "Username must be 3-50 characters"
    );
    assert!(validate_new_user(&"x".repeat(50), "pw1").is_ok());
    assert_eq!(bad_request_text(validate_new_user("ann", "")), "Password is required");
    assert_eq!(bad_request_text(validate_new_user("ann", "pw")), "Password must be at least 3 characters");
}

#[test]
fn bio_and_new_password_limits() {
    assert!(validate_bio(&"b".repeat(500)).is_ok());
    assert_eq!(bad_request_text(validate_bio(&"b".repeat(501))), "Bio too long (max 500 chars)");
    assert!(validate_new_password("abc").is_ok());
    assert_eq!(bad_request_text(validate_new_password("ab")), "Password must be 3+ characters");
    assert_eq!(bad_request_text(validate_new_password("")), "Password must be 3+ characters");
}

#[test]
fn following_twice_keeps_one_entry() {
    let mut list = vec!["a".to_string()];
    assert!(follow_user(&mut list, "b"));
    assert!(!follow_user(&mut list, "b"));
    assert!(!follow_user(&mut list, "a"));
    assert_eq!(list, vec!["a".to_string(), "b".to_string()]);
}

#[test]
fn unfollowing_removes_every_copy() {
    let mut list = vec!["a".to_string(), "b".to_string(), "a".to_string(), "c".to_string()];
    unfollow_user(&mut list, "a");
    assert_eq!(list, vec!["b".to_string(), "c".to_string()]);
    unfollow_user(&mut list, "zzz");
    assert_eq!(list, vec!["b".to_string(), "c".to_string()]);
    let mut empty: Vec<String> = Vec::new();
    unfollow_user(&mut empty, "a");
    assert!(empty.is_empty());
}
