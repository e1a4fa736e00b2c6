//! Which squares a piece may move to, stated over sets of occupied squares.
//!
//! Nothing here looks at whether a move leaves the mover's king attacked, and
//! castling, capturing in passing and promotion are not part of the rules below.

use crate::board::components::{Location, Piece, PieceColor, PieceType};
use vstd::prelude::*;

verus! {

/// The absolute value of `a`.
pub open spec fn abs(a: int) -> int {
    if a < 0 {
        -a
    } else {
        a
    }
}

/// `k` steps along an axis in the direction given by the sign of `d`.
pub open spec fn scaled(d: int, k: int) -> int {
    if d > 0 {
        k
    } else if d < 0 {
        -k
    } else {
        0
    }
}

/// How many files `to` lies to the right of `from`.
pub open spec fn dx(from: Location, to: Location) -> int {
    to.x - from.x
}

/// How many ranks `to` lies above `from`.
pub open spec fn dy(from: Location, to: Location) -> int {
    to.y - from.y
}

/// The number of king steps between two squares.
pub open spec fn distance(from: Location, to: Location) -> int {
    if abs(dx(from, to)) >= abs(dy(from, to)) {
        abs(dx(from, to))
    } else {
        abs(dy(from, to))
    }
}

/// Two different squares on one rank or one file.
pub open spec fn on_line(from: Location, to: Location) -> bool {
    from != to && (from.x == to.x || from.y == to.y)
}

/// Two different squares on one diagonal.
pub open spec fn on_diagonal(from: Location, to: Location) -> bool {
    from != to && abs(dx(from, to)) == abs(dy(from, to))
}

/// The square `k` steps from `from` on the way to `to`, for two squares on a
/// common rank, file or diagonal.
pub open spec fn step_towards(from: Location, to: Location, k: int) -> Location {
    Location::at(from.x + scaled(dx(from, to), k), from.y + scaled(dy(from, to), k))
}

/// Whether a piece of either side stands on `square`.
pub open spec fn occupied(same: Set<Location>, other: Set<Location>, square: Location) -> bool {
    same.contains(square) || other.contains(square)
}

/// No piece stands strictly between `from` and `to`.
pub open spec fn path_clear(
    from: Location,
    to: Location,
    same: Set<Location>,
    other: Set<Location>,
) -> bool {
    forall|k: int|
        1 <= k < distance(from, to) ==> !occupied(same, other, #[trigger] step_towards(from, to, k))
}

/// A sliding piece on `from` may stop on `to`: the way there is free, and `to`
/// itself holds no piece of the mover's side. A piece of the other side on `to`
/// is captured, so nothing beyond it can be reached.
pub open spec fn slide_target(
    from: Location,
    to: Location,
    same: Set<Location>,
    other: Set<Location>,
) -> bool {
    to.on_board() && from != to && !same.contains(to) && path_clear(from, to, same, other)
}

/// The square `k` steps from `from` in the direction `(file_step, rank_step)`,
/// where each step is -1, 0 or 1; `None` once the board is left.
pub open spec fn ray_square(from: Location, file_step: int, rank_step: int, k: int) -> Option<
    Location,
> {
    from.spec_translate(scaled(file_step, k), scaled(rank_step, k))
}

/// `to` lies on the ray that leaves `from` in the direction `(file_step, rank_step)`,
/// where each step is -1, 0 or 1.
pub open spec fn on_ray(from: Location, file_step: int, rank_step: int, to: Location) -> bool {
    let n = distance(from, to);
    n >= 1 && dx(from, to) == scaled(file_step, n) && dy(from, to) == scaled(rank_step, n)
}

/// `to` is one of the up to eight neighbours of `from`.
pub open spec fn king_target(from: Location, to: Location) -> bool {
    to.on_board() && distance(from, to) == 1
}

/// `to` is a knight's jump away from `from`.
pub open spec fn knight_target(from: Location, to: Location) -> bool {
    to.on_board() && ((abs(dx(from, to)) == 1 && abs(dy(from, to)) == 2) || (abs(dx(from, to)) == 2
        && abs(dy(from, to)) == 1))
}

/// A rook on `from` may stop on `to`.
pub open spec fn rook_target(
    from: Location,
    to: Location,
    same: Set<Location>,
    other: Set<Location>,
) -> bool {
    on_line(from, to) && slide_target(from, to, same, other)
}

/// A bishop on `from` may stop on `to`.
pub open spec fn bishop_target(
    from: Location,
    to: Location,
    same: Set<Location>,
    other: Set<Location>,
) -> bool {
    on_diagonal(from, to) && slide_target(from, to, same, other)
}

/// A queen on `from` may stop on `to`: wherever a rook or a bishop could.
pub open spec fn queen_target(
    from: Location,
    to: Location,
    same: Set<Location>,
    other: Set<Location>,
) -> bool {
    rook_target(from, to, same, other) || bishop_target(from, to, same, other)
}

/// The pawn `piece` on `from` is offered `to`, given the squares `other` that
/// the opponent holds.
///
/// A pawn whose next rank is off the board is offered nothing. Otherwise it is
/// offered the square straight ahead unless an opponent stands there, the
/// square two ranks ahead as long as it has not moved (whatever stands on
/// either of the two squares), and each diagonal neighbour ahead that an
/// opponent holds.
pub open spec fn pawn_target(piece: Piece, from: Location, to: Location, other: Set<Location>) -> bool {
    let ahead = from.y + piece.color.forward();
    &&& 0 <= ahead < 8
    &&& to.on_board()
    &&& {
        ||| to.x == from.x && to.y == ahead && !other.contains(to)
        ||| to.x == from.x && to.y == ahead + piece.color.forward() && !piece.has_moved
        ||| abs(dx(from, to)) == 1 && to.y == ahead && other.contains(to)
    }
}

/// `piece` on `from` reaches `to` by the way its kind moves, before squares
/// held by its own side are taken out.
pub open spec fn reaches(
    piece: Piece,
    from: Location,
    same: Set<Location>,
    other: Set<Location>,
    to: Location,
) -> bool {
    match piece.kind {
        PieceType::King => king_target(from, to),
        PieceType::Queen => queen_target(from, to, same, other),
        PieceType::Rook => rook_target(from, to, same, other),
        PieceType::Bishop => bishop_target(from, to, same, other),
        PieceType::Knight => knight_target(from, to),
        PieceType::Pawn => pawn_target(piece, from, to, other),
    }
}

/// `to` is a square that `piece` on `from` may be moved to.
pub open spec fn is_candidate(
    piece: Piece,
    from: Location,
    same: Set<Location>,
    other: Set<Location>,
    to: Location,
) -> bool {
    to.on_board() && !same.contains(to) && reaches(piece, from, same, other, to)
}

/// All squares that `piece` on `from` may be moved to, where `same` are the
/// squares held by its own side and `other` those held by the opponent.
pub open spec fn candidate_targets(
    piece: Piece,
    from: Location,
    same: Set<Location>,
    other: Set<Location>,
) -> Set<Location> {
    Set::new(|to: Location| is_candidate(piece, from, same, other, to))
}

/// The squares on which the pieces of one side stand.
pub open spec fn locations_of(pieces: Map<Location, Piece>, color: PieceColor) -> Set<Location> {
    Set::new(|square: Location| pieces.contains_key(square) && pieces[square].color == color)
}

/// All squares that the piece on `from` may be moved to as the pieces stand.
pub open spec fn targets_on(pieces: Map<Location, Piece>, from: Location) -> Set<Location> {
    candidate_targets(
        pieces[from],
        from,
        locations_of(pieces, pieces[from].color),
        locations_of(pieces, pieces[from].color.spec_opposite()),
    )
}

} // verus!
