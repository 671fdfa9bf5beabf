//! Records of the board: users, posts and login tokens.
use vstd::prelude::*;

verus! {

/// A registered user.
#[derive(Clone, Debug)]
pub struct User {
    pub id: String,
    pub username: String,
    /// Password hash.
    pub password: String,
    pub bio: Option<String>,
}

/// A post.
#[derive(Clone, Debug)]
pub struct Post {
    pub id: String,
    pub user_id: String,
    pub content: String,
    pub created_at: String,
    pub updated_at: Option<String>,
}

/// What a login token stands for.
#[derive(Clone, Debug)]
pub struct TokenData {
    pub user_id: String,
    pub created_at: String,
}

} // verus!
