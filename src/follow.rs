//! The list of users that a user follows.
use vstd::prelude::*;

verus! {

/// `id` is in the list.
pub open spec fn lists(s: Seq<String>, id: Seq<char>) -> bool {
    exists|j: int| 0 <= j < s.len() && (#[trigger] s[j])@ == id
}

/// The list without the entries equal to `id`, in order.
pub open spec fn without(s: Seq<String>, id: Seq<char>) -> Seq<String>
    decreases s.len(),
{
    if s.len() == 0 {
        seq![]
    } else if s.last()@ == id {
        without(s.drop_last(), id)
    } else {
        without(s.drop_last(), id).push(s.last())
    }
}

/// Adds `following_id` to the list unless it is there; says whether the
/// list changed.
pub fn follow_user(followings: &mut Vec<String>, following_id: &str) -> (changed: bool)
    ensures
        changed == !lists(old(followings)@, following_id@),
        !changed ==> final(followings)@ == old(followings)@,
        changed ==> final(followings)@.len() == old(followings)@.len() + 1,
        changed ==> final(followings)@.drop_last() == old(followings)@,
        changed ==> final(followings)@.last()@ == following_id@,
{
    let id = following_id.to_owned();
    let mut j: usize = 0;
    while j < followings.len()
        invariant
            j <= followings@.len(),
            id@ == following_id@,
            forall|k: int| 0 <= k < j ==> (#[trigger] followings@[k])@ != following_id@,
        decreases followings@.len() - j,
    {
        if followings[j] == id {
            return false;
        }
        j = j + 1;
    }
    let ghost before = followings@;
    followings.push(id);
    proof {
        assert(followings@.drop_last() =~= before);
    }
    true
}

/// Removes every entry equal to `following_id`, keeping the order of the
/// rest.
pub fn unfollow_user(followings: &mut Vec<String>, following_id: &str)
    ensures
        final(followings)@ == without(old(followings)@, following_id@),
{
    let ghost all = followings@;
    let items = followings.split_off(0);
    let id = following_id.to_owned();
    proof {
        assert(items@ =~= all);
        assert(followings@ =~= without(all.take(0), following_id@));
    }
    for item in it: items.into_iter()
        invariant
            id@ == following_id@,
            it.seq() == all,
            followings@ == without(all.take(it.index() as int), following_id@),
    {
        proof {
            let t = all.take(it.index() + 1);
            assert(t.drop_last() =~= all.take(it.index() as int));
        }
        if item != id {
            followings.push(item);
        }
    }
    proof {
        assert(all.take(all.len() as int) =~= all);
    }
}

} // verus!
