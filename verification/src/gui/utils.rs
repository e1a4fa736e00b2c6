//! Laying out the move list.

use crate::board::game::PlayedMove;
use vstd::prelude::*;

verus! {

/// Where the group with index `group` ends in a list of `len` moves.
pub open spec fn group_end(group: int, len: int) -> int {
    if 2 * group + 2 <= len {
        2 * group + 2
    } else {
        len
    }
}

/// Takes a slice of all played moves and groups them by move number: the
/// first group holds the first two moves, the next group the two after them,
/// and so on; the last group holds a single move when their number is odd.
pub fn group_played_moves(played_moves: &[PlayedMove]) -> (groups: Vec<Vec<PlayedMove>>)
    ensures
        groups@.len() == (played_moves@.len() + 1) / 2,
        forall|group: int|
            0 <= group < groups@.len() ==> (#[trigger] groups@[group])@ == played_moves@.subrange(
                2 * group,
                group_end(group, played_moves@.len() as int),
            ),
{
    let mut groups: Vec<Vec<PlayedMove>> = Vec::new();
    let mut i: usize = 0;
    while i < played_moves.len()
        invariant
            i <= played_moves@.len(),
            i % 2 == 0,
            groups@.len() == i / 2,
            forall|group: int|
                0 <= group < groups@.len() ==> (#[trigger] groups@[group])@
                    == played_moves@.subrange(
                    2 * group,
                    group_end(group, played_moves@.len() as int),
                ),
        decreases played_moves@.len() - i,
    {
        let mut group: Vec<PlayedMove> = Vec::new();
        group.push(played_moves[i]);
        if played_moves.len() - i >= 2 {
            group.push(played_moves[i + 1]);
            assert(group@ =~= played_moves@.subrange(i as int, i + 2));
            groups.push(group);
            i = i + 2;
        } else {
            assert(group@ =~= played_moves@.subrange(i as int, i + 1));
            groups.push(group);
            return groups;
        }
    }
    groups
}

} // verus!
