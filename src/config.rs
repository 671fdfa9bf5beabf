//! Limits of the board and the names under which its records are stored.
use vstd::prelude::*;

use crate::text::{chars_of, parse_signed, signed_value};

verus! {

/// Longest post, in bytes.
pub const MAX_POST_LENGTH: usize = 5000;

/// Longest profile text, in bytes.
pub const MAX_BIO_LENGTH: usize = 500;

/// Shortest user name.
pub const MIN_USERNAME_LENGTH: usize = 3;

/// Longest user name.
pub const MAX_USERNAME_LENGTH: usize = 50;

/// Shortest password.
pub const MIN_PASSWORD_LENGTH: usize = 3;

/// Posts on one page of a listing.
pub const POSTS_PER_PAGE: usize = 10;

/// Lifetime of a login token, in hours, where no valid setting is given.
pub const DEFAULT_TOKEN_EXPIRATION_HOURS: i64 = 24;

/// Key of the list of user ids.
pub const USERS_LIST_KEY: &'static str = "users_list";

/// Key of the global feed: post ids, newest first.
pub const FEED_KEY: &'static str = "feed";

/// Key of the list of issued tokens.
pub const TOKENS_LIST_KEY: &'static str = "tokens_list";

/// Lifetime of a login token, in hours: the setting where it is a decimal
/// `i64`, else `DEFAULT_TOKEN_EXPIRATION_HOURS`.
pub fn token_expiration_hours(setting: Option<&str>) -> (r: i64)
    ensures
        r == match setting {
            Some(s) => match signed_value(s@) {
                Some(v) => v as i64,
                None => DEFAULT_TOKEN_EXPIRATION_HOURS,
            },
            None => DEFAULT_TOKEN_EXPIRATION_HOURS,
        },
{
    match setting {
        Some(s) => {
            let chars = chars_of(s);
            match parse_signed(&chars) {
                Some(v) => v,
                None => DEFAULT_TOKEN_EXPIRATION_HOURS,
            }
        },
        None => DEFAULT_TOKEN_EXPIRATION_HOURS,
    }
}

/// Key of a user record.
pub fn user_key(id: &str) -> (r: String)
    ensures
        r@ == "user:"@ + id@,
{
    String::from_str("user:").concat(id)
}

/// Key of a post record.
pub fn post_key(id: &str) -> (r: String)
    ensures
        r@ == "post:"@ + id@,
{
    String::from_str("post:").concat(id)
}

/// Key of a token record.
pub fn token_key(token: &str) -> (r: String)
    ensures
        r@ == "token:"@ + token@,
{
    String::from_str("token:").concat(token)
}

/// Key of the list of users that a user follows.
pub fn followings_key(user_id: &str) -> (r: String)
    ensures
        r@ == "followings:"@ + user_id@,
{
    String::from_str("followings:").concat(user_id)
}

} // verus!
