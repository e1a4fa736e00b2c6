//! What holds of the targets of a piece and of the course of a game, whatever
//! the position.

use crate::board::components::{Location, Piece, PieceColor, PieceType};
use crate::board::events::{MoveClass, MoveTarget};
use crate::board::game::{GameState, PlayedMove};
use crate::board::targets::{
    abs, candidate_targets, distance, dx, dy, locations_of, occupied, path_clear, ray_square,
    scaled, step_towards, targets_on,
};
use vstd::prelude::*;

verus! {

/// Whether a piece of the given kind slides in the direction
/// `(file_step, rank_step)`: a rook along ranks and files, a bishop along
/// diagonals, a queen along both.
pub open spec fn slides_along(kind: PieceType, file_step: int, rank_step: int) -> bool {
    &&& -1 <= file_step <= 1
    &&& -1 <= rank_step <= 1
    &&& match kind {
        PieceType::Rook => (file_step == 0) != (rank_step == 0),
        PieceType::Bishop => file_step != 0 && rank_step != 0,
        PieceType::Queen => file_step != 0 || rank_step != 0,
        _ => false,
    }
}

/// A sliding piece is stopped by the first piece in its way.
///
/// Let the first occupied square on a ray of a rook, bishop or queen be `d`
/// steps away. If a piece of the mover's side stands there, the targets on the
/// ray are the squares less than `d` steps away. If a piece of the other side
/// stands there, they are the squares at most `d` steps away.
pub proof fn lemma_ray_stops_at_first_piece(
    piece: Piece,
    from: Location,
    file_step: int,
    rank_step: int,
    same: Set<Location>,
    other: Set<Location>,
    d: int,
    k: int,
)
    requires
        from.on_board(),
        slides_along(piece.kind, file_step, rank_step),
        d >= 1,
        ray_square(from, file_step, rank_step, d).is_some(),
        occupied(same, other, ray_square(from, file_step, rank_step, d).unwrap()),
        forall|j: int|
            1 <= j < d ==> !occupied(
                same,
                other,
                (#[trigger] ray_square(from, file_step, rank_step, j)).unwrap(),
            ),
        k >= 1,
        ray_square(from, file_step, rank_step, k).is_some(),
    ensures
        same.contains(ray_square(from, file_step, rank_step, d).unwrap()) ==> (candidate_targets(
            piece,
            from,
            same,
            other,
        ).contains(ray_square(from, file_step, rank_step, k).unwrap()) <==> k < d),
        !same.contains(ray_square(from, file_step, rank_step, d).unwrap()) ==> (candidate_targets(
            piece,
            from,
            same,
            other,
        ).contains(ray_square(from, file_step, rank_step, k).unwrap()) <==> k <= d),
{
    let to = ray_square(from, file_step, rank_step, k).unwrap();
    let blocker = ray_square(from, file_step, rank_step, d).unwrap();
    assert(dx(from, to) == scaled(file_step, k));
    assert(dy(from, to) == scaled(rank_step, k));
    assert(distance(from, to) == k);
    assert forall|i: int| 1 <= i <= k implies ray_square(from, file_step, rank_step, i) == Some(
        #[trigger] step_towards(from, to, i),
    ) by {
        assert(scaled(dx(from, to), i) == scaled(file_step, i));
        assert(scaled(dy(from, to), i) == scaled(rank_step, i));
    }
    if k < d {
        assert(!occupied(same, other, ray_square(from, file_step, rank_step, k).unwrap()));
        assert forall|i: int| 1 <= i < distance(from, to) implies !occupied(
            same,
            other,
            #[trigger] step_towards(from, to, i),
        ) by {
            assert(!occupied(same, other, ray_square(from, file_step, rank_step, i).unwrap()));
        }
        assert(path_clear(from, to, same, other));
    } else if k == d {
        assert forall|i: int| 1 <= i < distance(from, to) implies !occupied(
            same,
            other,
            #[trigger] step_towards(from, to, i),
        ) by {
            assert(!occupied(same, other, ray_square(from, file_step, rank_step, i).unwrap()));
        }
        assert(path_clear(from, to, same, other));
    } else {
        assert(ray_square(from, file_step, rank_step, d) == Some(step_towards(from, to, d)));
        assert(!path_clear(from, to, same, other));
    }
}

/// A pawn on its first square is offered one and two steps ahead.
///
/// A white pawn on the second rank that has not moved, with the two squares
/// ahead of it free, may be moved to either of them.
pub proof fn lemma_pawn_first_move(
    piece: Piece,
    from: Location,
    same: Set<Location>,
    other: Set<Location>,
)
    requires
        piece.kind == PieceType::Pawn,
        piece.color == PieceColor::White,
        !piece.has_moved,
        from.on_board(),
        from.y == 1,
        !occupied(same, other, Location::at(from.x as int, 2)),
        !occupied(same, other, Location::at(from.x as int, 3)),
    ensures
        candidate_targets(piece, from, same, other).contains(Location::at(from.x as int, 2)),
        candidate_targets(piece, from, same, other).contains(Location::at(from.x as int, 3)),
{
}

/// A pawn that has moved is offered one step only.
///
/// Every target of a pawn that has moved lies on the next rank ahead: the
/// square straight ahead if it is free, or a diagonal neighbour that the
/// opponent holds.
pub proof fn lemma_pawn_later_moves(
    piece: Piece,
    from: Location,
    same: Set<Location>,
    other: Set<Location>,
    to: Location,
)
    requires
        piece.kind == PieceType::Pawn,
        piece.has_moved,
        from.on_board(),
        candidate_targets(piece, from, same, other).contains(to),
    ensures
        to.y == from.y + piece.color.forward(),
        to.x == from.x ==> !occupied(same, other, to),
        to.x != from.x ==> abs(dx(from, to)) == 1 && other.contains(to),
{
}

/// A state stays valid under clicks and releases.
pub proof fn lemma_valid_is_kept(state: GameState, square: Location, target: Option<Location>)
    requires
        state.valid(),
    ensures
        state.press(square).valid(),
        state.release(target).valid(),
{
    if let Some(from) = state.selected {
        lemma_attempt_valid(state, from, Some(square));
        lemma_attempt_valid(state, from, target);
    }
}

/// A state stays valid when the selected piece is let go.
proof fn lemma_attempt_valid(state: GameState, from: Location, target: Option<Location>)
    requires
        state.valid(),
        state.selected == Some(from),
    ensures
        state.attempt(from, target).valid(),
{
    match state.classify(from, target) {
        MoveClass::Target(MoveTarget::Legal(to)) => {
            let after = state.commit(from, to);
            assert(to.on_board());
            assert forall|square: Location| #[trigger]
                after.pieces.contains_key(square) implies square.on_board() by {
                if square != to {
                    assert(state.pieces.contains_key(square));
                }
            }
        },
        _ => {},
    }
}

/// Choosing another piece changes the selection in one step.
///
/// While a piece is selected, a click on another piece of the side to move
/// selects that piece: the state after the click has it selected, and the
/// pieces, the turn and the moves played are as before.
pub proof fn lemma_reselect(state: GameState, first: Location, second: Location)
    requires
        state.valid(),
        state.selected == Some(first),
        state.owns(second),
        second != first,
    ensures
        state.press(second) == state.select(second),
        state.press(second).selected == Some(second),
{
}

/// Selecting one piece and then another of the same side ends with the
/// second selected.
pub proof fn lemma_select_then_reselect(state: GameState, first: Location, second: Location)
    requires
        state.valid(),
        state.selected.is_none(),
        state.owns(first),
        state.owns(second),
        second != first,
    ensures
        state.press(first).selected == Some(first),
        state.press(first).press(second).selected == Some(second),
        state.press(first).press(second) == state.select(second),
{
}

/// Clicking twice on a piece of the side to move leaves everything as it was.
pub proof fn lemma_select_twice(state: GameState, square: Location)
    requires
        state.valid(),
        state.selected.is_none(),
        state.owns(square),
    ensures
        state.press(square).selected == Some(square),
        state.press(square).press(square) == state,
{
}

/// A target of a piece is neither its own square nor a square of its side.
pub proof fn lemma_target_is_elsewhere(pieces: Map<Location, Piece>, from: Location, to: Location)
    requires
        pieces.contains_key(from),
        targets_on(pieces, from).contains(to),
    ensures
        to != from,
        to.on_board(),
        pieces.contains_key(to) ==> pieces[to].color != pieces[from].color,
{
    let same = locations_of(pieces, pieces[from].color);
    assert(same.contains(from));
    if pieces.contains_key(to) && pieces[to].color == pieces[from].color {
        assert(same.contains(to));
    }
}

/// A legal move passes the turn once and is written down once.
///
/// Letting the selected piece go over one of its targets, by a release or by a
/// click, moves it there as a piece that has moved, hands the turn to the
/// other side, adds exactly that move to the moves played, and leaves nothing
/// selected.
pub proof fn lemma_legal_move(state: GameState, from: Location, to: Location)
    requires
        state.valid(),
        state.selected == Some(from),
        targets_on(state.pieces, from).contains(to),
    ensures
        state.release(Some(to)) == state.commit(from, to),
        state.press(to) == state.commit(from, to),
        state.commit(from, to).turn == state.turn.spec_opposite(),
        state.commit(from, to).turn.spec_opposite() == state.turn,
        state.commit(from, to).played == state.played.push(
            PlayedMove { piece: state.pieces[from], source: from, target: to },
        ),
        state.commit(from, to).played.len() == state.played.len() + 1,
        state.commit(from, to).selected.is_none(),
        !state.commit(from, to).pieces.contains_key(from),
        state.commit(from, to).pieces.contains_key(to),
        state.commit(from, to).pieces[to] == state.pieces[from].moved(),
        state.commit(from, to).pieces[to].has_moved,
{
    lemma_target_is_elsewhere(state.pieces, from, to);
}

/// A move that is not allowed changes nothing but the selection.
///
/// Letting the selected piece go off the board, over its own square, or over a
/// square that is neither one of its targets nor held by its side leaves the
/// pieces, the turn and the moves played as they were, and nothing selected.
pub proof fn lemma_rejected_move(state: GameState, from: Location, target: Option<Location>)
    requires
        state.valid(),
        state.selected == Some(from),
        state.classify(from, target) is Target,
        !(state.classify(from, target) matches MoveClass::Target(MoveTarget::Legal(_))),
    ensures
        state.release(target) == state.deselect(),
        state.release(target).pieces == state.pieces,
        state.release(target).turn == state.turn,
        state.release(target).played == state.played,
        state.release(target).selected.is_none(),
{
}

/// Letting go off the board, or over a free square that is no target, is a
/// move that is not allowed.
pub proof fn lemma_rejected_cases(state: GameState, from: Location, to: Location)
    requires
        state.valid(),
        state.selected == Some(from),
    ensures
        state.classify(from, None) == MoveClass::Target(MoveTarget::OutOfBound),
        state.classify(from, Some(from)) == MoveClass::Target(MoveTarget::Unmoved),
        to != from && !state.pieces.contains_key(to) && !targets_on(state.pieces, from).contains(to)
            ==> state.classify(from, Some(to)) == MoveClass::Target(MoveTarget::Illegal),
{
}

/// A click that selects nothing changes nothing.
///
/// While nothing is selected, a click on an empty square or on a piece of the
/// side that is not to move leaves the state as it is.
pub proof fn lemma_ignored_click(state: GameState, square: Location)
    requires
        state.selected.is_none(),
        !state.owns(square),
    ensures
        state.press(square) == state,
        state.release(Some(square)) == state,
        state.release(None) == state,
{
}

/// Between two states: the moves played are those before, with at most one
/// more behind them, and the side to move has changed, to the other side,
/// exactly if there is one more.
pub open spec fn turn_follows_moves(before: GameState, after: GameState) -> bool {
    &&& after.played == before.played || (after.played.len() == before.played.len() + 1
        && after.played.drop_last() == before.played)
    &&& after.turn != before.turn <==> after.played.len() == before.played.len() + 1
    &&& after.turn != before.turn ==> after.turn == before.turn.spec_opposite()
}

/// The turn passes exactly when a move is written down, and the moves
/// played only ever grow at the end.
///
/// After a click or a release the moves played are those before, with at most
/// one more behind them; and the side to move has changed exactly if there is
/// one more.
pub proof fn lemma_turn_follows_moves(
    state: GameState,
    square: Location,
    target: Option<Location>,
)
    requires
        state.valid(),
    ensures
        turn_follows_moves(state, state.press(square)),
        turn_follows_moves(state, state.release(target)),
{
    let pressed = state.press(square);
    if pressed.played != state.played {
        assert(pressed.played.drop_last() =~= state.played);
    }
    let released = state.release(target);
    if released.played != state.played {
        assert(released.played.drop_last() =~= state.played);
    }
}

/// Between two states, for the piece on the square `at` of the later one: if
/// it counts as not moved, it stood on `at` before as the same piece; if it
/// counts as moved, it stood there before as the same piece, or it is the
/// piece that was selected before, moved.
pub open spec fn moved_stays_moved(before: GameState, after: GameState, at: Location) -> bool {
    &&& !after.pieces[at].has_moved ==> before.pieces.contains_key(at) && before.pieces[at]
        == after.pieces[at]
    &&& after.pieces[at].has_moved ==> (before.pieces.contains_key(at) && before.pieces[at]
        == after.pieces[at]) || (before.selected matches Some(from) && after.pieces[at]
        == before.pieces[from].moved())
}

/// A piece that has moved stays a piece that has moved.
///
/// After a click or a release every piece that counts as not moved stood on
/// the same square before, as the same piece; every other piece stood there
/// before as well, or is the piece that was just moved.
pub proof fn lemma_moved_stays_moved(
    state: GameState,
    square: Location,
    target: Option<Location>,
    at: Location,
)
    requires
        state.valid(),
    ensures
        state.press(square).pieces.contains_key(at) ==> moved_stays_moved(
            state,
            state.press(square),
            at,
        ),
        state.release(target).pieces.contains_key(at) ==> moved_stays_moved(
            state,
            state.release(target),
            at,
        ),
{
}

} // verus!
