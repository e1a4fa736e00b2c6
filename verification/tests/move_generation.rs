use chess_engine::board::components::{Location, Piece, PieceColor, PieceType};
use chess_engine::board::utils::{contains, translate_from_offsets};
use chess_engine::board::SelectedPiece;

fn sorted(mut squares: Vec<Location>) -> Vec<Location> {
    squares.sort();
    squares
}

fn squares(coordinates: &[(usize, usize)]) -> Vec<Location> {
    coordinates.iter().map(|&(x, y)| Location::new(x, y)).collect()
}

fn every_kind() -> Vec<PieceType> {
    vec![
        PieceType::King,
        PieceType::Queen,
        PieceType::Rook,
        PieceType::Bishop,
        PieceType::Knight,
        PieceType::Pawn,
    ]
}

#[test]
fn king_in_the_middle_has_eight_neighbours_in_the_order_of_its_offsets() {
    let targets = SelectedPiece::king_moves(&Location::new(3, 3));
    assert_eq!(
        targets,
        squares(&[(2, 3), (2, 4), (3, 2), (3, 4), (4, 2), (4, 3), (2, 2), (4, 4)])
    );
}

#[test]
fn king_in_the_corner_has_three_neighbours() {
    let targets = SelectedPiece::king_moves(&Location::new(0, 0));
    assert_eq!(sorted(targets), squares(&[(0, 1), (1, 0), (1, 1)]));
}

#[test]
fn king_on_the_edge_has_five_neighbours() {
    let targets = SelectedPiece::king_moves(&Location::new(7, 4));
    assert_eq!(sorted(targets), squares(&[(6, 3), (6, 4), (6, 5), (7, 3), (7, 5)]));
}

#[test]
fn king_on_every_inner_square_has_eight_neighbours() {
    for x in 1..7 {
        for y in 1..7 {
            assert_eq!(SelectedPiece::king_moves(&Location::new(x, y)).len(), 8);
        }
    }
}

#[test]
fn knight_in_the_middle_has_eight_jumps() {
    let targets = SelectedPiece::knight_moves(&Location::new(3, 3));
    assert_eq!(
        targets,
        squares(&[(1, 2), (1, 4), (2, 1), (2, 5), (4, 1), (4, 5), (5, 2), (5, 4)])
    );
}

#[test]
fn knight_on_every_inner_square_has_eight_jumps() {
    for x in 2..6 {
        for y in 2..6 {
            assert_eq!(SelectedPiece::knight_moves(&Location::new(x, y)).len(), 8);
        }
    }
}

#[test]
fn knight_in_the_corner_has_two_jumps() {
    let targets = SelectedPiece::knight_moves(&Location::new(0, 0));
    assert_eq!(sorted(targets), squares(&[(1, 2), (2, 1)]));
}

#[test]
fn knight_on_its_first_square_keeps_off_its_own_pawn() {
    let knight = Piece::new(PieceType::Knight, PieceColor::White);
    let same = squares(&[(1, 0), (3, 1)]);
    let targets = SelectedPiece::legal_moves(&knight, &Location::new(1, 0), &same, &[]);
    assert_eq!(sorted(targets), squares(&[(0, 2), (2, 2)]));
}

#[test]
fn rook_on_an_empty_board_sees_its_rank_and_file() {
    let targets = SelectedPiece::rook_moves(&Location::new(3, 3), &[], &[]);
    assert_eq!(targets.len(), 14);
    assert_eq!(
        sorted(targets),
        squares(&[
            (0, 3),
            (1, 3),
            (2, 3),
            (3, 0),
            (3, 1),
            (3, 2),
            (3, 4),
            (3, 5),
            (3, 6),
            (3, 7),
            (4, 3),
            (5, 3),
            (6, 3),
            (7, 3)
        ])
    );
}

#[test]
fn rook_goes_left_then_right_then_down_then_up() {
    let targets = SelectedPiece::rook_moves(&Location::new(1, 1), &squares(&[(4, 1), (1, 4)]), &[]);
    assert_eq!(
        targets,
        squares(&[(0, 1), (2, 1), (3, 1), (1, 0), (1, 2), (1, 3)])
    );
}

#[test]
fn ray_stops_before_a_piece_of_the_same_side() {
    let same = squares(&[(0, 4)]);
    let targets = SelectedPiece::cast_ray(&Location::new(0, 0), 0, 1, &same, &[]);
    assert_eq!(targets, squares(&[(0, 1), (0, 2), (0, 3)]));
}

#[test]
fn ray_stops_on_a_piece_of_the_other_side() {
    let other = squares(&[(0, 4)]);
    let targets = SelectedPiece::cast_ray(&Location::new(0, 0), 0, 1, &[], &other);
    assert_eq!(targets, squares(&[(0, 1), (0, 2), (0, 3), (0, 4)]));
}

#[test]
fn ray_is_empty_when_the_next_square_is_held_by_the_same_side() {
    let same = squares(&[(1, 1)]);
    let targets = SelectedPiece::cast_ray(&Location::new(0, 0), 1, 1, &same, &[]);
    assert!(targets.is_empty());
}

#[test]
fn ray_takes_the_nearest_of_two_pieces_in_its_way() {
    let same = squares(&[(6, 3)]);
    let other = squares(&[(4, 3)]);
    let targets = SelectedPiece::cast_ray(&Location::new(2, 3), 1, 0, &same, &other);
    assert_eq!(targets, squares(&[(3, 3), (4, 3)]));
}

#[test]
fn ray_runs_to_the_edge_of_the_board() {
    let targets = SelectedPiece::cast_ray(&Location::new(5, 2), -1, 0, &[], &[]);
    assert_eq!(targets, squares(&[(4, 2), (3, 2), (2, 2), (1, 2), (0, 2)]));
    assert!(SelectedPiece::cast_ray(&Location::new(7, 7), 1, 1, &[], &[]).is_empty());
}

#[test]
fn rook_is_stopped_by_own_and_other_pieces() {
    let rook = Piece::new(PieceType::Rook, PieceColor::White);
    let same = squares(&[(3, 3), (3, 5)]);
    let other = squares(&[(5, 3), (3, 1)]);
    let targets = SelectedPiece::legal_moves(&rook, &Location::new(3, 3), &same, &other);
    assert_eq!(
        sorted(targets),
        squares(&[(0, 3), (1, 3), (2, 3), (3, 1), (3, 2), (3, 4), (4, 3), (5, 3)])
    );
}

#[test]
fn rook_in_the_corner_behind_its_own_pieces_has_no_target() {
    let rook = Piece::new(PieceType::Rook, PieceColor::White);
    let same = squares(&[(0, 0), (0, 1), (1, 0)]);
    let targets = SelectedPiece::legal_moves(&rook, &Location::new(0, 0), &same, &[]);
    assert!(targets.is_empty());
}

#[test]
fn bishop_reaches_the_far_corner_in_seven_steps() {
    let targets = SelectedPiece::bishop_moves(&Location::new(0, 0), &[], &[]);
    assert_eq!(
        targets,
        squares(&[(1, 1), (2, 2), (3, 3), (4, 4), (5, 5), (6, 6), (7, 7)])
    );
}

#[test]
fn bishop_in_the_middle_sees_four_diagonals() {
    let targets = SelectedPiece::bishop_moves(&Location::new(3, 3), &[], &[]);
    assert_eq!(targets.len(), 13);
    assert_eq!(
        sorted(targets),
        squares(&[
            (0, 0),
            (0, 6),
            (1, 1),
            (1, 5),
            (2, 2),
            (2, 4),
            (4, 2),
            (4, 4),
            (5, 1),
            (5, 5),
            (6, 0),
            (6, 6),
            (7, 7)
        ])
    );
}

#[test]
fn bishop_is_stopped_by_own_and_other_pieces() {
    let same = squares(&[(5, 5)]);
    let other = squares(&[(1, 5), (2, 2)]);
    let targets = SelectedPiece::bishop_moves(&Location::new(3, 3), &same, &other);
    assert_eq!(
        sorted(targets),
        squares(&[(1, 5), (2, 2), (2, 4), (4, 2), (4, 4), (5, 1), (6, 0)])
    );
}

#[test]
fn queen_goes_where_rook_and_bishop_go() {
    let queen = Piece::new(PieceType::Queen, PieceColor::Black);
    let from = Location::new(4, 2);
    let same = squares(&[(4, 2), (4, 5), (6, 4)]);
    let other = squares(&[(2, 2), (3, 1)]);
    let mut expected = SelectedPiece::rook_moves(&from, &same, &other);
    expected.extend(SelectedPiece::bishop_moves(&from, &same, &other));
    let targets = SelectedPiece::legal_moves(&queen, &from, &same, &other);
    assert_eq!(targets.len(), 17);
    assert_eq!(sorted(targets), sorted(expected));
}

#[test]
fn white_pawn_on_its_first_square_may_go_one_or_two_steps() {
    let pawn = Piece::new(PieceType::Pawn, PieceColor::White);
    let from = Location::new(0, 1);
    let targets = SelectedPiece::legal_moves(&pawn, &from, &squares(&[(0, 1)]), &[]);
    assert_eq!(sorted(targets), squares(&[(0, 2), (0, 3)]));
}

#[test]
fn pawn_that_has_moved_may_go_one_step() {
    let mut pawn = Piece::new(PieceType::Pawn, PieceColor::White);
    pawn.has_moved = true;
    let from = Location::new(0, 2);
    let targets = SelectedPiece::legal_moves(&pawn, &from, &squares(&[(0, 2)]), &[]);
    assert_eq!(targets, squares(&[(0, 3)]));
}

#[test]
fn black_pawn_goes_down_the_board() {
    let pawn = Piece::new(PieceType::Pawn, PieceColor::Black);
    let from = Location::new(4, 6);
    let targets = SelectedPiece::legal_moves(&pawn, &from, &squares(&[(4, 6)]), &[]);
    assert_eq!(sorted(targets), squares(&[(4, 4), (4, 5)]));
}

#[test]
fn pawn_takes_diagonally_and_not_straight_ahead() {
    let mut pawn = Piece::new(PieceType::Pawn, PieceColor::White);
    pawn.has_moved = true;
    let from = Location::new(3, 3);
    let other = squares(&[(3, 4), (2, 4), (4, 4), (4, 3)]);
    let targets = SelectedPiece::pawn_moves(&from, &pawn, &other);
    assert_eq!(targets, squares(&[(4, 4), (2, 4)]));
}

#[test]
fn pawn_does_not_take_its_own_side() {
    let mut pawn = Piece::new(PieceType::Pawn, PieceColor::White);
    pawn.has_moved = true;
    let from = Location::new(3, 3);
    let same = squares(&[(3, 3), (2, 4), (3, 4)]);
    let targets = SelectedPiece::legal_moves(&pawn, &from, &same, &[]);
    assert!(targets.is_empty());
}

#[test]
fn pawn_on_the_edge_file_takes_towards_the_board_only() {
    let mut pawn = Piece::new(PieceType::Pawn, PieceColor::Black);
    pawn.has_moved = true;
    let from = Location::new(0, 4);
    let other = squares(&[(1, 3)]);
    let targets = SelectedPiece::pawn_moves(&from, &pawn, &other);
    assert_eq!(targets, squares(&[(0, 3), (1, 3)]));
}

#[test]
fn pawn_on_the_last_rank_is_offered_nothing() {
    let white = Piece::new(PieceType::Pawn, PieceColor::White);
    assert!(SelectedPiece::pawn_moves(&Location::new(2, 7), &white, &squares(&[(1, 7)])).is_empty());
    let black = Piece::new(PieceType::Pawn, PieceColor::Black);
    assert!(SelectedPiece::pawn_moves(&Location::new(2, 0), &black, &[]).is_empty());
}

#[test]
fn pawn_one_step_from_the_last_rank_has_no_second_step() {
    let pawn = Piece::new(PieceType::Pawn, PieceColor::White);
    let targets = SelectedPiece::pawn_moves(&Location::new(2, 6), &pawn, &[]);
    assert_eq!(targets, squares(&[(2, 7)]));
}

#[test]
fn pawn_two_step_does_not_look_at_what_is_in_the_way() {
    let pawn = Piece::new(PieceType::Pawn, PieceColor::White);
    let from = Location::new(4, 1);
    let other = squares(&[(4, 2), (4, 3)]);
    let targets = SelectedPiece::legal_moves(&pawn, &from, &squares(&[(4, 1)]), &other);
    assert_eq!(targets, squares(&[(4, 3)]));
    let same = squares(&[(4, 1), (4, 3)]);
    let targets = SelectedPiece::legal_moves(&pawn, &from, &same, &[]);
    assert_eq!(targets, squares(&[(4, 2)]));
}

#[test]
fn targets_are_on_the_board_and_not_held_by_the_same_side() {
    let same = squares(&[(0, 0), (1, 1), (2, 3), (3, 3), (4, 6), (7, 7), (5, 2), (6, 5)]);
    let other = squares(&[(0, 7), (1, 2), (3, 4), (4, 4), (6, 1), (7, 0), (2, 6), (5, 5)]);
    for kind in every_kind() {
        for color in [PieceColor::White, PieceColor::Black] {
            for x in 0..8 {
                for y in 0..8 {
                    let piece = Piece::new(kind, color);
                    let from = Location::new(x, y);
                    let targets = SelectedPiece::legal_moves(&piece, &from, &same, &other);
                    for target in &targets {
                        assert!(target.x < 8 && target.y < 8);
                        assert!(!same.contains(target));
                    }
                    let mut unique = targets.clone();
                    unique.sort();
                    unique.dedup();
                    assert_eq!(unique.len(), targets.len());
                }
            }
        }
    }
}

#[test]
fn translate_keeps_to_the_board() {
    let from = Location::new(1, 6);
    assert_eq!(from.translate(2, 1), Some(Location::new(3, 7)));
    assert_eq!(from.translate(-1, -6), Some(Location::new(0, 0)));
    assert_eq!(from.translate(0, 0), Some(from));
    assert_eq!(from.translate(-2, 0), None);
    assert_eq!(from.translate(0, 2), None);
    assert_eq!(from.translate(7, 0), None);
    assert_eq!(from.translate(isize::MAX, isize::MIN), None);
}

#[test]
fn translate_from_offsets_drops_what_leaves_the_board() {
    let from = Location::new(0, 7);
    let offsets = vec![vec![1, 0], vec![0, 1], vec![-1, 0], vec![1, -1], vec![0, -7]];
    assert_eq!(
        translate_from_offsets(&from, offsets),
        squares(&[(1, 7), (1, 6), (0, 0)])
    );
    assert!(translate_from_offsets(&from, Vec::new()).is_empty());
}

#[test]
fn contains_finds_a_square_in_a_list() {
    let list = squares(&[(1, 2), (3, 4)]);
    assert!(contains(&list, &Location::new(3, 4)));
    assert!(!contains(&list, &Location::new(4, 3)));
    assert!(!contains(&[], &Location::new(0, 0)));
}
