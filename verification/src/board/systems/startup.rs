//! The pieces on their first squares.

use crate::board::components::{Board, Location, Piece, PieceColor, PieceType};
use vstd::prelude::*;

verus! {

/// The kind of piece that starts on the file with index `x` of a back rank.
pub open spec fn back_rank_kind(x: int) -> PieceType {
    if x == 0 || x == 7 {
        PieceType::Rook
    } else if x == 1 || x == 6 {
        PieceType::Knight
    } else if x == 2 || x == 5 {
        PieceType::Bishop
    } else if x == 3 {
        PieceType::Queen
    } else {
        PieceType::King
    }
}

/// The piece that starts on `location`, if any: White on the first two ranks,
/// Black on the last two, pawns in front of the other pieces.
pub open spec fn starting_piece(location: Location) -> Option<Piece> {
    if !location.on_board() {
        None
    } else if location.y == 0 {
        Some(
            Piece {
                kind: back_rank_kind(location.x as int),
                color: PieceColor::White,
                has_moved: false,
            },
        )
    } else if location.y == 1 {
        Some(Piece { kind: PieceType::Pawn, color: PieceColor::White, has_moved: false })
    } else if location.y == 6 {
        Some(Piece { kind: PieceType::Pawn, color: PieceColor::Black, has_moved: false })
    } else if location.y == 7 {
        Some(
            Piece {
                kind: back_rank_kind(location.x as int),
                color: PieceColor::Black,
                has_moved: false,
            },
        )
    } else {
        None
    }
}

/// The pieces as they stand when a game begins.
pub open spec fn starting_position() -> Map<Location, Piece> {
    Map::new(
        |location: Location| starting_piece(location).is_some(),
        |location: Location| starting_piece(location).unwrap(),
    )
}

/// Puts on the empty square `location` the piece that starts there, if any.
pub fn place_piece(board: &mut Board, location: Location)
    requires
        old(board).wf(),
        !old(board)@.contains_key(location),
    ensures
        final(board).wf(),
        final(board)@ == match starting_piece(location) {
            Some(piece) => old(board)@.insert(location, piece),
            None => old(board)@,
        },
{
    if location.x >= 8 {
        return ;
    }
    let back_rank = if location.x == 0 || location.x == 7 {
        PieceType::Rook
    } else if location.x == 1 || location.x == 6 {
        PieceType::Knight
    } else if location.x == 2 || location.x == 5 {
        PieceType::Bishop
    } else if location.x == 3 {
        PieceType::Queen
    } else {
        PieceType::King
    };
    let piece = if location.y == 0 {
        Piece::new(back_rank, PieceColor::White)
    } else if location.y == 1 {
        Piece::new(PieceType::Pawn, PieceColor::White)
    } else if location.y == 6 {
        Piece::new(PieceType::Pawn, PieceColor::Black)
    } else if location.y == 7 {
        Piece::new(back_rank, PieceColor::Black)
    } else {
        return ;
    };
    board.place(location, piece);
}

/// Sets up the board with all pieces on their first squares.
pub fn setup_board() -> (board: Board)
    ensures
        board.wf(),
        board@ == starting_position(),
{
    let mut board = Board::empty();
    let mut x: usize = 0;
    while x < 8
        invariant
            x <= 8,
            board.wf(),
            forall|location: Location|
                #![trigger board@.contains_key(location)]
                board@.contains_key(location) <==> location.x < x && starting_piece(
                    location,
                ).is_some(),
            forall|location: Location|
                #![trigger board@[location]]
                board@.contains_key(location) ==> Some(board@[location]) == starting_piece(
                    location,
                ),
        decreases 8 - x,
    {
        let mut y: usize = 0;
        while y < 8
            invariant
                x < 8,
                y <= 8,
                board.wf(),
                forall|location: Location|
                    #![trigger board@.contains_key(location)]
                    board@.contains_key(location) <==> (location.x < x || (location.x == x
                        && location.y < y)) && starting_piece(location).is_some(),
                forall|location: Location|
                    #![trigger board@[location]]
                    board@.contains_key(location) ==> Some(board@[location]) == starting_piece(
                        location,
                    ),
            decreases 8 - y,
        {
            place_piece(&mut board, Location::new(x, y));
            y = y + 1;
        }
        x = x + 1;
    }
    assert(board@ =~= starting_position());
    board
}

} // verus!
