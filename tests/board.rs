use bord::config::{followings_key, post_key, token_expiration_hours, token_key, user_key};
use bord::errors::ApiError;
use bord::evaluation::{evaluate, Metrics};
use bord::models::{Post, User};
use bord::posts::{
    filter_posts_by_user, filter_posts_by_users, get_user_by_username, is_valid_post_content,
    paginate_posts,
};
use bord::query_params::{get_bool_flag, get_int, get_string, parse_query_params, QueryParams};

fn post(id: usize, user: &str) -> Post {
    Post {
        id: format!("post-{}", id),
        user_id: user.to_string(),
        content: format!("post {}", id),
        created_at: format!("2024-01-{:02}", id % 28 + 1),
        updated_at: None,
    }
}

fn ids(posts: &[Post]) -> Vec<String> {
    posts.iter().map(|p| p.id.clone()).collect()
}

#[test]
fn record_keys_are_prefixed() {
    assert_eq!(user_key("42"), "user:42");
    assert_eq!(post_key("abc"), "post:abc");
    assert_eq!(token_key("t0k"), "token:t0k");
    assert_eq!(followings_key("u1"), "followings:u1");
    assert_eq!(user_key(""), "user:");
}

#[test]
fn query_string_values_are_read() {
    let params = parse_query_params("/path?user=john&page=2");
    assert_eq!(get_string(&params, "user", None), Some("john".to_string()));
    assert_eq!(get_int(&params, "page", 1), 2);
    assert_eq!(get_string(&params, "missing", Some("dflt")), Some("dflt".to_string()));
    assert_eq!(get_string(&params, "missing", None), None);
}

#[test]
fn uri_without_query_has_no_params() {
    let params = parse_query_params("/posts");
    assert_eq!(get_string(&params, "", None), None);
    assert!(!get_bool_flag(&params, "all"));
}

#[test]
fn flags_need_the_word_true() {
    assert!(get_bool_flag(&parse_query_params("/p?all=true"), "all"));
    assert!(!get_bool_flag(&parse_query_params("/p?all=yes"), "all"));
    let bare = parse_query_params("/p?all");
    assert!(!get_bool_flag(&bare, "all"));
    assert_eq!(get_string(&bare, "all", None), Some(String::new()));
}

#[test]
fn values_are_percent_decoded() {
    let params = parse_query_params("/p?name=a%20b%2Bc&plus=a+b&bad=%FF&eq=x=y");
    assert_eq!(get_string(&params, "name", None), Some("a b+c".to_string()));
    assert_eq!(get_string(&params, "plus", None), Some("a+b".to_string()));
    assert_eq!(get_string(&params, "bad", None), Some("%FF".to_string()));
    assert_eq!(get_string(&params, "eq", None), Some("x=y".to_string()));
}

#[test]
fn later_parameter_replaces_earlier() {
    let params = parse_query_params("/p?a=1&b=2&a=3");
    assert_eq!(get_string(&params, "a", None), Some("3".to_string()));
    assert_eq!(get_string(&params, "b", None), Some("2".to_string()));
}

#[test]
fn page_numbers_are_at_least_one() {
    let params = parse_query_params("/p?zero=0&word=abc&plus=+7&neg=-3&big=99999999999999999999999");
    assert_eq!(get_int(&params, "zero", 5), 1);
    assert_eq!(get_int(&params, "word", 5), 5);
    assert_eq!(get_int(&params, "plus", 5), 7);
    assert_eq!(get_int(&params, "neg", 5), 5);
    assert_eq!(get_int(&params, "big", 5), 5);
    assert_eq!(get_int(&params, "none", 0), 1);
}

#[test]
fn params_can_be_built_by_hand() {
    let mut params = QueryParams::new();
    params.insert("page".to_string(), "3".to_string());
    params.insert("page".to_string(), "4".to_string());
    assert_eq!(get_int(&params, "page", 1), 4);
}

#[test]
fn token_lifetime_setting() {
    assert_eq!(token_expiration_hours(None), 24);
    assert_eq!(token_expiration_hours(Some("48")), 48);
    assert_eq!(token_expiration_hours(Some("-5")), -5);
    assert_eq!(token_expiration_hours(Some("+6")), 6);
    assert_eq!(token_expiration_hours(Some("12h")), 24);
    assert_eq!(token_expiration_hours(Some("")), 24);
    assert_eq!(token_expiration_hours(Some("-9223372036854775808")), i64::MIN);
    assert_eq!(token_expiration_hours(Some("9223372036854775808")), 24);
}

#[test]
fn pages_hold_ten_posts() {
    let posts: Vec<Post> = (0..25).map(|i| post(i, "u")).collect();
    let first = paginate_posts(posts.clone(), 1);
    assert_eq!(ids(&first), (0..10).map(|i| format!("post-{}", i)).collect::<Vec<_>>());
    let third = paginate_posts(posts.clone(), 3);
    assert_eq!(ids(&third), (20..25).map(|i| format!("post-{}", i)).collect::<Vec<_>>());
    assert!(paginate_posts(posts, 4).is_empty());
}

#[test]
fn posts_are_selected_by_author() {
    let posts = vec![post(1, "a"), post(2, "b"), post(3, "a"), post(4, "c")];
    assert_eq!(ids(&filter_posts_by_user(posts.clone(), "a")), vec!["post-1", "post-3"]);
    let authors = vec!["c".to_string(), "a".to_string()];
    assert_eq!(ids(&filter_posts_by_users(posts.clone(), &authors)), vec!["post-1", "post-3", "post-4"]);
    assert!(filter_posts_by_users(posts, &[]).is_empty());
}

#[test]
fn user_found_by_name() {
    let users = vec![
        User { id: "1".to_string(), username: "ann".to_string(), password: "h".to_string(), bio: None },
        User { id: "2".to_string(), username: "bob".to_string(), password: "h".to_string(), bio: None },
        User { id: "3".to_string(), username: "bob".to_string(), password: "h".to_string(), bio: None },
    ];
    assert_eq!(get_user_by_username(&users, "bob"), Some("2".to_string()));
    assert_eq!(get_user_by_username(&users, "eve"), None);
}

#[test]
fn post_content_length_is_checked_in_bytes() {
    assert!(!is_valid_post_content(""));
    assert!(is_valid_post_content(&"a".repeat(5000)));
    assert!(!is_valid_post_content(&"a".repeat(5001)));
    assert!(!is_valid_post_content(&"é".repeat(2501)));
}

#[test]
fn api_errors_carry_status_and_text() {
    let cases = vec![
        (ApiError::BadRequest("bad".to_string()), 400, "bad", "Bad Request: bad"),
        (ApiError::Unauthorized, 401, "Unauthorized", "Unauthorized"),
        (ApiError::Forbidden, 403, "Forbidden", "Forbidden"),
        (ApiError::NotFound("gone".to_string()), 404, "gone", "Not Found: gone"),
        (ApiError::Conflict("taken".to_string()), 409, "taken", "Conflict: taken"),
        (ApiError::InternalError("boom".to_string()), 500, "boom", "Internal Error: boom"),
    ];
    for (e, status, text, message) in cases {
        assert_eq!(e.status_code(), status);
        assert_eq!(e.error_text(), text);
        assert_eq!(e.message(), message);
    }
}

#[test]
fn confusion_matrix_counts_classified_samples() {
    let scores = vec![Some(100_000), Some(900_000), Some(200_000), Some(700_000), None];
    let labels = vec![1, 0, 0, 1, 1];
    let m = evaluate(&scores, &labels, 300_000);
    assert_eq!(m, Metrics { tp: 1, tn: 1, fp: 1, fn_: 1 });
    assert_eq!(evaluate(&vec![], &vec![], 300_000), Metrics::new());
}

#[test]
fn recording_fills_one_cell() {
    let mut m = Metrics::new();
    m.record(true, true);
    m.record(true, false);
    m.record(true, false);
    assert_eq!(m, Metrics { tp: 1, tn: 0, fp: 2, fn_: 0 });
}
