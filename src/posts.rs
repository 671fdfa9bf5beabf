//! What the post handlers compute: content checks, selection and paging.
use vstd::prelude::*;

use crate::config::{MAX_POST_LENGTH, POSTS_PER_PAGE};
use crate::models::{Post, User};

verus! {

/// A post's content is non-empty and at most `MAX_POST_LENGTH` bytes.
pub fn is_valid_post_content(content: &str) -> (r: bool)
    ensures
        r == (content@.len() > 0 && content.len() <= MAX_POST_LENGTH),
{
    !content.is_empty() && content.len() <= MAX_POST_LENGTH
}

/// Page `page` (from 1) of a listing: `POSTS_PER_PAGE` entries from
/// position `(page - 1) * POSTS_PER_PAGE`, fewer at the end.
pub open spec fn page_of(s: Seq<Post>, page: int) -> Seq<Post> {
    let start = (page - 1) * POSTS_PER_PAGE;
    if start >= s.len() {
        seq![]
    } else if start + POSTS_PER_PAGE >= s.len() {
        s.subrange(start, s.len() as int)
    } else {
        s.subrange(start, start + POSTS_PER_PAGE)
    }
}

/// The posts of `s` by the given author, in order.
pub open spec fn posts_by(s: Seq<Post>, uid: Seq<char>) -> Seq<Post>
    decreases s.len(),
{
    if s.len() == 0 {
        seq![]
    } else if s.last().user_id@ == uid {
        posts_by(s.drop_last(), uid).push(s.last())
    } else {
        posts_by(s.drop_last(), uid)
    }
}

/// The author is one of `ids`.
pub open spec fn author_in(p: Post, ids: Seq<String>) -> bool {
    exists|j: int| 0 <= j < ids.len() && (#[trigger] ids[j])@ == p.user_id@
}

/// The posts of `s` by any of the given authors, in order.
pub open spec fn posts_by_any(s: Seq<Post>, ids: Seq<String>) -> Seq<Post>
    decreases s.len(),
{
    if s.len() == 0 {
        seq![]
    } else if author_in(s.last(), ids) {
        posts_by_any(s.drop_last(), ids).push(s.last())
    } else {
        posts_by_any(s.drop_last(), ids)
    }
}

/// One page of a listing.
pub fn paginate_posts(posts: Vec<Post>, page: usize) -> (r: Vec<Post>)
    requires
        page >= 1,
        (page - 1) * POSTS_PER_PAGE <= usize::MAX,
    ensures
        r@ == page_of(posts@, page as int),
{
    let start: usize = (page - 1) * POSTS_PER_PAGE;
    if start >= posts.len() {
        return Vec::new();
    }
    let ghost all = posts@;
    let mut posts = posts;
    let mut rest = posts.split_off(start);
    rest.truncate(POSTS_PER_PAGE);
    proof {
        assert(rest@ =~= page_of(all, page as int));
    }
    rest
}

/// The posts written by `user_id`, in the order given.
pub fn filter_posts_by_user(posts: Vec<Post>, user_id: &str) -> (r: Vec<Post>)
    ensures
        r@ == posts_by(posts@, user_id@),
{
    let uid = user_id.to_owned();
    let ghost all = posts@;
    let mut r: Vec<Post> = Vec::new();
    for p in it: posts.into_iter()
        invariant
            uid@ == user_id@,
            it.seq() == all,
            r@ == posts_by(all.take(it.index() as int), user_id@),
    {
        proof {
            let t = all.take(it.index() + 1);
            assert(t.drop_last() =~= all.take(it.index() as int));
        }
        if p.user_id == uid {
            r.push(p);
        }
    }
    proof {
        assert(all.take(all.len() as int) =~= all);
    }
    r
}

/// Whether one of `ids` is `id`.
fn has_id(ids: &[String], id: &String) -> (r: bool)
    ensures
        r == exists|j: int| 0 <= j < ids@.len() && (#[trigger] ids@[j])@ == id@,
{
    let mut j: usize = 0;
    while j < ids.len()
        invariant
            j <= ids@.len(),
            forall|k: int| 0 <= k < j ==> (#[trigger] ids@[k])@ != id@,
        decreases ids@.len() - j,
    {
        if ids[j] == *id {
            return true;
        }
        j = j + 1;
    }
    false
}

/// The posts written by any of `user_ids`, in the order given.
pub fn filter_posts_by_users(posts: Vec<Post>, user_ids: &[String]) -> (r: Vec<Post>)
    ensures
        r@ == posts_by_any(posts@, user_ids@),
{
    let ghost all = posts@;
    let mut r: Vec<Post> = Vec::new();
    for p in it: posts.into_iter()
        invariant
            it.seq() == all,
            r@ == posts_by_any(all.take(it.index() as int), user_ids@),
    {
        proof {
            let t = all.take(it.index() + 1);
            assert(t.drop_last() =~= all.take(it.index() as int));
        }
        if has_id(user_ids, &p.user_id) {
            r.push(p);
        }
    }
    proof {
        assert(all.take(all.len() as int) =~= all);
    }
    r
}

/// The id of the first user named `username`.
pub fn get_user_by_username(users: &Vec<User>, username: &str) -> (r: Option<String>)
    ensures
        r is None ==> forall|i: int| 0 <= i < users@.len() ==> (#[trigger] users@[i]).username@
            != username@,
        r is Some ==> exists|i: int|
            0 <= i < users@.len() && (#[trigger] users@[i]).username@ == username@ && r->0@
                == users@[i].id@ && forall|j: int|
                0 <= j < i ==> (#[trigger] users@[j]).username@ != username@,
{
    let name = username.to_owned();
    let mut i: usize = 0;
    while i < users.len()
        invariant
            i <= users@.len(),
            name@ == username@,
            forall|j: int| 0 <= j < i ==> (#[trigger] users@[j]).username@ != username@,
        decreases users@.len() - i,
    {
        if users[i].username == name {
            return Some(users[i].id.clone());
        }
        i = i + 1;
    }
    None
}

} // verus!
