use chess_engine::board::components::{
    rank_for_index, resolve_piece, square_color, Board, File, Location, Piece, PieceColor,
    PieceType, SquareColor,
};
use chess_engine::board::utils::{grouped_piece_locations, same_color_pieces};
use std::cmp::Ordering;

#[test]
fn location_is_named_by_file_letter_and_rank_number() {
    assert_eq!(Location::new(0, 0).notation(), "a1");
    assert_eq!(Location::new(4, 3).notation(), "e4");
    assert_eq!(Location::new(7, 7).notation(), "h8");
    assert_eq!(Location::new(1, 6).notation(), "b7");
}

#[test]
fn locations_are_ordered_by_file_then_rank() {
    assert!(Location::new(0, 7) < Location::new(1, 0));
    assert!(Location::new(3, 2) < Location::new(3, 5));
    assert_eq!(Location::new(2, 2), Location { x: 2, y: 2 });
    assert_ne!(Location::new(2, 3), Location::new(3, 2));
}

#[test]
fn file_from_index_gives_the_files_in_order() {
    let files = [
        File::A,
        File::B,
        File::C,
        File::D,
        File::E,
        File::F,
        File::G,
        File::H,
    ];
    let letters = ['a', 'b', 'c', 'd', 'e', 'f', 'g', 'h'];
    for index in 0..8 {
        assert_eq!(File::from_index(index), files[index]);
        assert_eq!(File::from_index(index).letter(), letters[index]);
        assert_eq!(File::from_index(index).name(), letters[index].to_string());
    }
}

#[test]
fn rank_number_is_one_more_than_its_index() {
    assert_eq!(rank_for_index(0), 1);
    assert_eq!(rank_for_index(7), 8);
}

#[test]
fn square_colors_alternate_from_a_dark_corner() {
    assert_eq!(square_color(0, 0), SquareColor::Dark);
    assert_eq!(square_color(7, 7), SquareColor::Dark);
    assert_eq!(square_color(0, 1), SquareColor::Light);
    assert_eq!(square_color(7, 0), SquareColor::Light);
    assert_eq!(square_color(3, 4), SquareColor::Light);
    assert_eq!(square_color(3, 3), SquareColor::Dark);
}

#[test]
fn piece_letters() {
    let kinds = [
        (PieceType::King, 'K'),
        (PieceType::Queen, 'Q'),
        (PieceType::Rook, 'R'),
        (PieceType::Bishop, 'B'),
        (PieceType::Knight, 'N'),
        (PieceType::Pawn, 'P'),
    ];
    for (kind, letter) in kinds {
        let white = Piece::new(kind, PieceColor::White);
        assert!(!white.has_moved);
        assert_eq!(white.notation(), letter);
        assert_eq!(white.kind_name(), letter.to_string());
        assert_eq!(white.resource_name(), format!("w{}", letter));
        let black = Piece::new(kind, PieceColor::Black);
        assert_eq!(black.resource_name(), format!("b{}", letter));
    }
}

#[test]
fn colors_are_opposite_to_each_other() {
    assert_eq!(PieceColor::White.opposite(), PieceColor::Black);
    assert_eq!(PieceColor::Black.opposite(), PieceColor::White);
}

#[test]
fn board_keeps_what_is_placed_on_it() {
    let mut board = Board::empty();
    let knight = Piece::new(PieceType::Knight, PieceColor::Black);
    let pawn = Piece::new(PieceType::Pawn, PieceColor::White);
    assert_eq!(resolve_piece(&board, &Location::new(6, 7)), None);
    board.place(Location::new(6, 7), knight);
    board.place(Location::new(7, 6), pawn);
    assert_eq!(resolve_piece(&board, &Location::new(6, 7)), Some(knight));
    assert_eq!(resolve_piece(&board, &Location::new(7, 6)), Some(pawn));
    assert_eq!(resolve_piece(&board, &Location::new(7, 7)), None);
    assert_eq!(resolve_piece(&board, &Location { x: 8, y: 0 }), None);
    assert_eq!(board.remove(&Location::new(6, 7)), Some(knight));
    assert_eq!(board.remove(&Location::new(6, 7)), None);
    assert_eq!(board.remove(&Location { x: 0, y: 9 }), None);
    assert_eq!(resolve_piece(&board, &Location::new(6, 7)), None);
    assert_eq!(resolve_piece(&board, &Location::new(7, 6)), Some(pawn));
}

#[test]
fn pieces_are_grouped_by_side() {
    let mut board = Board::empty();
    board.place(Location::new(4, 0), Piece::new(PieceType::King, PieceColor::White));
    board.place(Location::new(0, 1), Piece::new(PieceType::Pawn, PieceColor::White));
    board.place(Location::new(4, 7), Piece::new(PieceType::King, PieceColor::Black));
    let (same, different) = grouped_piece_locations(&PieceColor::White, &board);
    assert_eq!(same, vec![Location::new(0, 1), Location::new(4, 0)]);
    assert_eq!(different, vec![Location::new(4, 7)]);
    let (same, different) = grouped_piece_locations(&PieceColor::Black, &board);
    assert_eq!(same, vec![Location::new(4, 7)]);
    assert_eq!(different, vec![Location::new(0, 1), Location::new(4, 0)]);
    assert_eq!(
        same_color_pieces(&PieceColor::White, &board),
        vec![Location::new(0, 1), Location::new(4, 0)]
    );
    assert!(same_color_pieces(&PieceColor::White, &Board::empty()).is_empty());
}

#[test]
fn comparing_squares_goes_by_file_then_rank() {
    let squares = [
        Location::new(0, 0),
        Location::new(0, 7),
        Location::new(1, 0),
        Location::new(3, 3),
        Location::new(7, 7),
    ];
    for (i, a) in squares.iter().enumerate() {
        for (j, b) in squares.iter().enumerate() {
            assert_eq!(a.partial_cmp(b), Some(i.cmp(&j)));
            assert_eq!(a.cmp(b), i.cmp(&j));
            assert_eq!(a < b, i < j);
            assert_eq!(a >= b, i >= j);
        }
    }
    assert_eq!(Location::new(2, 5).partial_cmp(&Location::new(2, 5)), Some(Ordering::Equal));
    let mut shuffled = vec![squares[3], squares[0], squares[4], squares[2], squares[1]];
    shuffled.sort();
    assert_eq!(shuffled, squares.to_vec());
}
