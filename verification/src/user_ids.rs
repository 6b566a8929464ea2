//! The ids the server gives the users that connect to a forward port.

use vstd::prelude::*;

verus! {

/// Hands out user ids `1, 2, 3, ...`, each once.
pub struct UserIdAllocator {
    last: u64,
}

impl UserIdAllocator {
    /// The id handed out last, `0` before the first.
    pub closed spec fn last_issued(&self) -> u64 {
        self.last
    }

    /// The ids handed out so far.
    pub open spec fn issued(&self) -> Set<u64> {
        Set::new(|i: u64| 1 <= i <= self.last_issued())
    }

    /// An allocator that has handed out nothing.
    pub fn new() -> (a: UserIdAllocator)
        ensures
            a.last_issued() == 0,
            a.issued() == Set::<u64>::empty(),
    {
        let a = UserIdAllocator { last: 0 };
        assert(a.issued() =~= Set::<u64>::empty());
        a
    }

    /// Whether another id can be handed out without overflowing.
    pub fn can_issue(&self) -> (r: bool)
        ensures
            r == (self.last_issued() < u64::MAX),
    {
        self.last < u64::MAX
    }

    /// The next id: one more than the last, never handed out before.
    pub fn get_next_user_id(&mut self) -> (id: u64)
        requires
            old(self).last_issued() < u64::MAX,
        ensures
            id == old(self).last_issued() + 1,
            final(self).last_issued() == id,
            !old(self).issued().contains(id),
            final(self).issued() == old(self).issued().insert(id),
    {
        self.last = self.last + 1;
        assert(self.issued() =~= old(self).issued().insert(self.last));
        self.last
    }
}

} // verus!
