use vstd::prelude::*;
use crate::node::Node;

verus! {

/// Whether the opening pattern has a living cell at the place `index`,
/// counted row by row: at every seventh place, at every fifth, and at every
/// fourth that is not also a third.
pub open spec fn seeded(index: nat) -> bool {
    index % 7 == 0 || index % 5 == 0 || (index % 4 == 0 && index % 3 != 0)
}

/// Brings the cell of `entry` to life where the opening pattern has a
/// living cell at the place of `entry`, and leaves it alone elsewhere.
pub fn seed(entry: (usize, &mut Node))
    ensures
        final(entry.1).is_alive == (seeded(entry.0 as nat) || old(entry.1).is_alive),
        final(entry.1).future_status == old(entry.1).future_status,
        final(entry.1).position == old(entry.1).position,
{
    let i = entry.0;
    if i % 7 == 0 || i % 5 == 0 || i % 4 == 0 && i % 3 != 0 {
        entry.1.is_alive = true;
    }
}

} // verus!
