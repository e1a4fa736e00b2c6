use chess_engine::board::components::{Location, Piece, PieceColor, PieceType};
use chess_engine::board::game::PlayedMove;
use chess_engine::gui::utils::group_played_moves;

fn pawn_step(file: usize, from: usize, to: usize, color: PieceColor) -> PlayedMove {
    PlayedMove {
        piece: Piece::new(PieceType::Pawn, color),
        source: Location::new(file, from),
        target: Location::new(file, to),
    }
}

#[test]
fn no_moves_make_no_group() {
    assert!(group_played_moves(&[]).is_empty());
}

#[test]
fn one_move_makes_a_group_of_one() {
    let first = pawn_step(4, 1, 3, PieceColor::White);
    assert_eq!(group_played_moves(&[first]), vec![vec![first]]);
}

#[test]
fn moves_are_grouped_two_by_two() {
    let first = pawn_step(4, 1, 3, PieceColor::White);
    let second = pawn_step(4, 6, 4, PieceColor::Black);
    let third = pawn_step(3, 1, 2, PieceColor::White);
    let fourth = pawn_step(3, 6, 5, PieceColor::Black);
    assert_eq!(
        group_played_moves(&[first, second]),
        vec![vec![first, second]]
    );
    assert_eq!(
        group_played_moves(&[first, second, third]),
        vec![vec![first, second], vec![third]]
    );
    assert_eq!(
        group_played_moves(&[first, second, third, fourth]),
        vec![vec![first, second], vec![third, fourth]]
    );
}

#[test]
fn played_move_is_written_with_piece_source_and_target() {
    let pawn = pawn_step(4, 1, 3, PieceColor::White);
    assert_eq!(pawn.notation(), "Pe2e4");
    let knight = PlayedMove {
        piece: Piece::new(PieceType::Knight, PieceColor::Black),
        source: Location::new(6, 7),
        target: Location::new(5, 5),
    };
    assert_eq!(knight.notation(), "Ng8f6");
}
