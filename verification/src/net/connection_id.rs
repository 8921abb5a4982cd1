//! Numbering of connections: each new connection takes the next number,
//! wrapping around after the largest.
use vstd::prelude::*;

verus! {

/// The source of connection numbers.
#[derive(Debug)]
pub struct ConnectionIds {
    next: u16,
}

/// The number after `n`, wrapping to zero after `u16::MAX`.
pub open spec fn successor(n: u16) -> u16 {
    if n == u16::MAX {
        0
    } else {
        (n + 1) as u16
    }
}

impl ConnectionIds {
    /// The number that the next connection takes.
    pub closed spec fn spec_next(&self) -> u16 {
        self.next
    }

    /// A fresh source: the first connection is number zero.
    pub fn new() -> (r: Self)
        ensures
            r.spec_next() == 0,
    {
        ConnectionIds { next: 0 }
    }
}

/// Takes the next connection number.
pub fn connection_id(ids: &mut ConnectionIds) -> (r: u16)
    ensures
        r == old(ids).spec_next(),
        final(ids).spec_next() == successor(old(ids).spec_next()),
{
    let r = ids.next;
    ids.next = if r == u16::MAX {
        0
    } else {
        r + 1
    };
    r
}

/// Two numbers taken one after the other differ, and the second is the
/// larger unless the first was the largest there is.
pub proof fn lemma_ids_increase(n: u16)
    ensures
        successor(n) != n,
        n < u16::MAX ==> successor(n) > n,
{
}

} // verus!
