//! Lists that keep their newest items.

use std::collections::VecDeque;
use vstd::prelude::*;

verus! {

/// The last `n` items, or all where there are fewer.
pub open spec fn newest<A>(items: Seq<A>, n: nat) -> Seq<A> {
    if items.len() > n {
        items.skip(items.len() - n)
    } else {
        items
    }
}

/// Drops the oldest items until no more than `limit` are left.
pub fn keep_newest<T>(items: &mut VecDeque<T>, limit: usize)
    ensures
        final(items)@ == newest(old(items)@, limit as nat),
{
    let ghost all = items@;
    let ghost mut dropped: int = 0;
    while items.len() > limit
        invariant
            0 <= dropped <= all.len(),
            items@ =~= all.skip(dropped),
            dropped > 0 ==> items@.len() >= limit,
        decreases items@.len(),
    {
        let _ = items.pop_front();
        proof {
            dropped = dropped + 1;
        }
    }
}

} // verus!
