//! Small helpers shared by move generation and by the handling of clicks.

use crate::board::components::{resolve_piece, Board, Location, PieceColor};
use crate::board::events::CheckedPieceMoveEvent;
use crate::board::game::Game;
use crate::board::targets::locations_of;
use itertools::Itertools;
use vstd::prelude::*;
use vstd::seq_lib::{lemma_no_dup_in_concat, lemma_seq_concat_contains_all_elements};

verus! {

/// Whether `location` is one of `locations`.
pub fn contains(locations: &[Location], location: &Location) -> (found: bool)
    ensures
        found == locations@.contains(*location),
{
    let mut i: usize = 0;
    while i < locations.len()
        invariant
            i <= locations@.len(),
            forall|j: int| 0 <= j < i ==> locations@[j] != *location,
        decreases locations@.len() - i,
    {
        if locations[i] == *location {
            return true;
        }
        i = i + 1;
    }
    false
}

/// Adds a square that the list does not hold yet.
pub(crate) fn offer(squares: &mut Vec<Location>, square: Location)
    requires
        old(squares)@.no_duplicates(),
        !old(squares)@.contains(square),
    ensures
        final(squares)@ == old(squares)@.push(square),
        final(squares)@.no_duplicates(),
        forall|to: Location|
            #![trigger final(squares)@.contains(to)]
            #![trigger old(squares)@.contains(to)]
            final(squares)@.contains(to) <==> old(squares)@.contains(to) || to == square,
{
    let ghost kept = squares@;
    squares.push(square);
    proof {
        let more = squares@;
        assert forall|to: Location| more.contains(to) <==> kept.contains(to) || to == square by {
            if kept.contains(to) {
                let j = choose|j: int| 0 <= j < kept.len() && kept[j] == to;
                assert(more[j] == to);
            }
            if to == square {
                assert(more[kept.len() as int] == to);
            }
            if more.contains(to) {
                let j = choose|j: int| 0 <= j < more.len() && more[j] == to;
                if j < kept.len() {
                    assert(kept[j] == to);
                }
            }
        }
        assert forall|a: int, b: int|
            0 <= a < more.len() && 0 <= b < more.len() && a != b implies more[a] != more[b] by {
            if a < kept.len() && b < kept.len() {
            } else if a < kept.len() {
                assert(kept.contains(more[a]));
            } else {
                assert(kept.contains(more[b]));
            }
        }
    }
}

/// Puts `more` behind `targets`, for two lists that share no square.
pub(crate) fn join(targets: Vec<Location>, more: Vec<Location>) -> (all: Vec<Location>)
    requires
        targets@.no_duplicates(),
        more@.no_duplicates(),
        forall|to: Location| !(targets@.contains(to) && more@.contains(to)),
    ensures
        all@ == targets@ + more@,
        all@.no_duplicates(),
        forall|to: Location| #[trigger] all@.contains(to) <==> targets@.contains(to) || more@.contains(to),
{
    let mut all = targets;
    let mut more = more;
    proof {
        assert forall|i: int, j: int|
            0 <= i < targets@.len() && 0 <= j < more@.len() implies targets@[i] != more@[j] by {
            assert(targets@.contains(targets@[i]));
            assert(more@.contains(more@[j]));
        }
        lemma_no_dup_in_concat(targets@, more@);
        assert forall|to: Location| (targets@ + more@).contains(to) <==> targets@.contains(to)
            || more@.contains(to) by {
            lemma_seq_concat_contains_all_elements(targets@, more@, to);
        }
    }
    all.append(&mut more);
    all
}

/// The offsets of a list, each as a sequence of numbers.
pub open spec fn offset_views(offsets: Seq<Vec<isize>>) -> Seq<Seq<isize>> {
    offsets.map_values(|offset: Vec<isize>| offset@)
}

/// The squares that lie at the given offsets from `from`, in the order of the
/// offsets, without those that fall off the board. An offset is a file step
/// followed by a rank step.
pub open spec fn translated(from: Location, offsets: Seq<Seq<isize>>) -> Seq<Location> {
    offsets.filter_map(|offset: Seq<isize>| from.spec_translate(offset[0] as int, offset[1] as int))
}

/// What `translated` holds, square by square: a square is in it exactly if one
/// of the offsets leads to it; it is as long as `offsets` if every offset stays
/// on the board; and it repeats no square if no two offsets lead to the same one.
pub proof fn lemma_translated(from: Location, offsets: Seq<Seq<isize>>)
    ensures
        forall|to: Location|
            translated(from, offsets).contains(to) <==> exists|i: int|
                0 <= i < offsets.len() && #[trigger] from.spec_translate(
                    offsets[i][0] as int,
                    offsets[i][1] as int,
                ) == Some(to),
        translated(from, offsets).len() <= offsets.len(),
        (forall|i: int|
            0 <= i < offsets.len() ==> (#[trigger] from.spec_translate(
                offsets[i][0] as int,
                offsets[i][1] as int,
            )).is_some()) ==> translated(from, offsets).len() == offsets.len(),
        (forall|i: int, j: int|
            0 <= i < j < offsets.len() && (#[trigger] from.spec_translate(
                offsets[i][0] as int,
                offsets[i][1] as int,
            )).is_some() ==> from.spec_translate(offsets[i][0] as int, offsets[i][1] as int)
                != #[trigger] from.spec_translate(offsets[j][0] as int, offsets[j][1] as int))
            ==> translated(from, offsets).no_duplicates(),
    decreases offsets.len(),
{
    let f = |offset: Seq<isize>| from.spec_translate(offset[0] as int, offset[1] as int);
    if offsets.len() == 0 {
        assert(translated(from, offsets) =~= Seq::empty());
    } else {
        let rest = offsets.drop_last();
        let last = offsets.last();
        lemma_translated(from, rest);
        let head = translated(from, rest);
        let all = translated(from, offsets);
        assert(all == match f(last) {
            Some(square) => head + seq![square],
            None => head,
        });
        assert forall|to: Location| all.contains(to) implies exists|i: int|
            0 <= i < offsets.len() && #[trigger] from.spec_translate(
                offsets[i][0] as int,
                offsets[i][1] as int,
            ) == Some(to) by {
            let at = choose|at: int| 0 <= at < all.len() && all[at] == to;
            if at < head.len() {
                assert(head.contains(to));
                let i = choose|i: int|
                    0 <= i < rest.len() && #[trigger] from.spec_translate(
                        rest[i][0] as int,
                        rest[i][1] as int,
                    ) == Some(to);
                assert(offsets[i] == rest[i]);
            } else {
                assert(f(last) == Some(to));
                assert(offsets[offsets.len() - 1] == last);
            }
        }
        assert forall|to: Location|
            (exists|i: int|
                0 <= i < offsets.len() && #[trigger] from.spec_translate(
                    offsets[i][0] as int,
                    offsets[i][1] as int,
                ) == Some(to)) implies all.contains(to) by {
            let i = choose|i: int|
                0 <= i < offsets.len() && #[trigger] from.spec_translate(
                    offsets[i][0] as int,
                    offsets[i][1] as int,
                ) == Some(to);
            if i < rest.len() {
                assert(rest[i] == offsets[i]);
                assert(head.contains(to));
                let at = choose|at: int| 0 <= at < head.len() && head[at] == to;
                assert(all[at] == to);
            } else {
                assert(all[head.len() as int] == to);
            }
        }
        if forall|i: int, j: int|
            0 <= i < j < offsets.len() && (#[trigger] from.spec_translate(
                offsets[i][0] as int,
                offsets[i][1] as int,
            )).is_some() ==> from.spec_translate(offsets[i][0] as int, offsets[i][1] as int)
                != #[trigger] from.spec_translate(offsets[j][0] as int, offsets[j][1] as int) {
            assert forall|i: int, j: int|
                0 <= i < j < rest.len() && (#[trigger] from.spec_translate(
                    rest[i][0] as int,
                    rest[i][1] as int,
                )).is_some() implies from.spec_translate(rest[i][0] as int, rest[i][1] as int)
                != #[trigger] from.spec_translate(rest[j][0] as int, rest[j][1] as int) by {
                assert(rest[i] == offsets[i] && rest[j] == offsets[j]);
            }
            assert(head.no_duplicates());
            if let Some(square) = f(last) {
                if head.contains(square) {
                    let i = choose|i: int|
                        0 <= i < rest.len() && #[trigger] from.spec_translate(
                            rest[i][0] as int,
                            rest[i][1] as int,
                        ) == Some(square);
                    assert(rest[i] == offsets[i]);
                    assert(offsets[offsets.len() - 1] == last);
                    assert(false);
                }
                assert forall|a: int, b: int|
                    0 <= a < all.len() && 0 <= b < all.len() && a != b implies all[a] != all[b] by {
                    if a < head.len() && b < head.len() {
                    } else if a < head.len() {
                        assert(head.contains(all[a]));
                    } else {
                        assert(head.contains(all[b]));
                    }
                }
            }
        }
        if forall|i: int|
            0 <= i < offsets.len() ==> (#[trigger] from.spec_translate(
                offsets[i][0] as int,
                offsets[i][1] as int,
            )).is_some() {
            assert forall|i: int| 0 <= i < rest.len() implies (#[trigger] from.spec_translate(
                rest[i][0] as int,
                rest[i][1] as int,
            )).is_some() by {
                assert(rest[i] == offsets[i]);
            }
            assert(offsets[offsets.len() - 1] == last);
        }
    }
}

/// The squares at the given offsets from `location` that are on the board, in
/// the order of the offsets. An offset is a file step followed by a rank step.
pub fn translate_from_offsets(location: &Location, offsets: Vec<Vec<isize>>) -> (squares: Vec<
    Location,
>)
    requires
        forall|i: int| 0 <= i < offsets@.len() ==> (#[trigger] offsets@[i])@.len() >= 2,
    ensures
        squares@ == translated(*location, offset_views(offsets@)),
{
    let ghost views = offset_views(offsets@);
    let mut squares: Vec<Location> = Vec::new();
    let mut i: usize = 0;
    assert(views.take(0) =~= Seq::empty());
    while i < offsets.len()
        invariant
            i <= offsets@.len(),
            views == offset_views(offsets@),
            forall|i: int| 0 <= i < offsets@.len() ==> (#[trigger] offsets@[i])@.len() >= 2,
            squares@ == translated(*location, views.take(i as int)),
        decreases offsets@.len() - i,
    {
        let offset = &offsets[i];
        let moved = location.translate(offset[0], offset[1]);
        proof {
            views.lemma_filter_map_take_succ(
                |offset: Seq<isize>| location.spec_translate(offset[0] as int, offset[1] as int),
                i as int,
            );
            assert(views[i as int] == offset@);
        }
        match moved {
            Some(square) => {
                squares.push(square);
            },
            None => {},
        }
        i = i + 1;
    }
    assert(views.take(i as int) =~= views);
    squares
}

/// The entries of `items` at two different positions, for every such pair of
/// positions: ordered by the first position, then by the second.
pub open spec fn ordered_pairs(items: Seq<isize>) -> Seq<Seq<isize>> {
    let n = items.len() as int;
    Seq::new(
        (n * (n - 1)) as nat,
        |i: int|
            {
                let first = i / (n - 1);
                let rest = i % (n - 1);
                let second = if rest < first {
                    rest
                } else {
                    rest + 1
                };
                seq![items[first], items[second]]
            },
    )
}

/// All arrangements of `k` entries of `items` at different positions.
///
/// Calls `Itertools::permutations` on the entries of `items` and gathers what it
/// yields with `Itertools::collect_vec`. Taken on trust from itertools: every
/// arrangement has `k` entries; there is none when `items` has fewer than `k`
/// entries; and for `k == 2` the arrangements are the pairs of entries at two
/// different positions, ordered by the first position and then by the second.
#[verifier::external_body]
pub(crate) fn permutations(items: Vec<isize>, k: usize) -> (arrangements: Vec<Vec<isize>>)
    ensures
        forall|i: int| 0 <= i < arrangements@.len() ==> (#[trigger] arrangements@[i])@.len() == k,
        k > items@.len() ==> arrangements@.len() == 0,
        k == 2 ==> offset_views(arrangements@) == ordered_pairs(items@),
{
    items.into_iter().permutations(k).collect_vec()
}

/// The squares held by the side `color`, and the squares held by the other
/// side, each list without repeats.
pub fn grouped_piece_locations(color: &PieceColor, board: &Board) -> (groups: (
    Vec<Location>,
    Vec<Location>,
))
    requires
        board.wf(),
    ensures
        groups.0@.no_duplicates(),
        groups.1@.no_duplicates(),
        groups.0@.to_set() == locations_of(board@, *color),
        groups.1@.to_set() == locations_of(board@, color.spec_opposite()),
{
    let mut same: Vec<Location> = Vec::new();
    let mut different: Vec<Location> = Vec::new();
    let mut x: usize = 0;
    while x < 8
        invariant
            x <= 8,
            board.wf(),
            same@.no_duplicates(),
            different@.no_duplicates(),
            forall|square: Location|
                #![trigger same@.contains(square)]
                same@.contains(square) <==> square.x < x && board@.contains_key(square)
                    && board@[square].color == *color,
            forall|square: Location|
                #![trigger different@.contains(square)]
                different@.contains(square) <==> square.x < x && board@.contains_key(square)
                    && board@[square].color != *color,
        decreases 8 - x,
    {
        let mut y: usize = 0;
        while y < 8
            invariant
                x < 8,
                y <= 8,
                board.wf(),
                same@.no_duplicates(),
                different@.no_duplicates(),
                forall|square: Location|
                    #![trigger same@.contains(square)]
                    same@.contains(square) <==> (square.x < x || (square.x == x && square.y < y))
                        && board@.contains_key(square) && board@[square].color == *color,
                forall|square: Location|
                    #![trigger different@.contains(square)]
                    different@.contains(square) <==> (square.x < x || (square.x == x && square.y
                        < y)) && board@.contains_key(square) && board@[square].color != *color,
            decreases 8 - y,
        {
            let square = Location::new(x, y);
            match resolve_piece(board, &square) {
                Some(piece) => {
                    if piece.color == *color {
                        offer(&mut same, square);
                    } else {
                        offer(&mut different, square);
                    }
                },
                None => {},
            }
            y = y + 1;
        }
        proof {
            assert forall|square: Location| board@.contains_key(square) implies square.y < 8 by {
                board.lemma_occupied_on_board(square);
            }
        }
        x = x + 1;
    }
    proof {
        assert forall|square: Location| board@.contains_key(square) implies square.x < 8 by {
            board.lemma_occupied_on_board(square);
        }
        assert(same@.to_set() =~= locations_of(board@, *color));
        assert(different@.to_set() =~= locations_of(board@, color.spec_opposite()));
    }
    (same, different)
}

/// The squares held by the side `color`, without repeats.
pub fn same_color_pieces(color: &PieceColor, board: &Board) -> (squares: Vec<Location>)
    requires
        board.wf(),
    ensures
        squares@.no_duplicates(),
        squares@.to_set() == locations_of(board@, *color),
{
    grouped_piece_locations(color, board).0
}

/// Drops the selection.
pub fn deselect_piece(game: &mut Game)
    ensures
        final(game).selected_piece.is_none(),
        final(game).board == old(game).board,
        final(game).current_player == old(game).current_player,
        final(game).played_moves == old(game).played_moves,
{
    game.selected_piece = None;
}

/// Takes the selected piece of `event` from its square and puts it on
/// `target` as a piece that has moved; what stood on `target` is taken off.
pub fn update_entity_for_move(board: &mut Board, event: &CheckedPieceMoveEvent, target: Location)
    requires
        old(board).wf(),
        target.on_board(),
    ensures
        final(board).wf(),
        final(board)@ == old(board)@.remove(event.selected.location_comp).insert(
            target,
            event.selected.piece_comp.moved(),
        ),
{
    board.remove(&event.selected.location_comp);
    board.remove(&target);
    let mut piece_comp = event.selected.piece_comp;
    piece_comp.has_moved = true;
    board.place(target, piece_comp);
    assert(board@ =~= old(board)@.remove(event.selected.location_comp).insert(
        target,
        event.selected.piece_comp.moved(),
    ));
}

} // verus!
