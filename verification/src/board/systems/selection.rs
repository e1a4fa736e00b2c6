//! Changes of the selection.

use crate::board::events::PieceSelectionEvent;
use crate::board::game::Game;
use crate::board::utils::deselect_piece;
use crate::board::SelectedPiece;
use vstd::prelude::*;

verus! {

/// Whether `event` may be handled in `game`: a piece is selected only while
/// none is, a selection is dropped or changed only while there is one, and the
/// piece to select is one of the side to move.
pub open spec fn selection_allowed(game: &Game, event: &PieceSelectionEvent) -> bool {
    match *event {
        PieceSelectionEvent::Selected(square) => game.selected_piece.is_none() && game@.owns(
            square,
        ),
        PieceSelectionEvent::Deselected(_) => game.selected_piece.is_some(),
        PieceSelectionEvent::Reselect(square) => game.selected_piece.is_some() && game@.owns(
            square,
        ),
    }
}

/// Handles a change of the selection: selects the piece on the square that
/// the event names, with the squares it may go to as the pieces stand, or
/// drops the selection.
pub fn handle_piece_selection_events(game: &mut Game, event: &PieceSelectionEvent)
    requires
        old(game).wf(),
        selection_allowed(old(game), event),
    ensures
        final(game).wf(),
        final(game)@ == match *event {
            PieceSelectionEvent::Selected(square) => old(game)@.select(square),
            PieceSelectionEvent::Deselected(_) => old(game)@.deselect(),
            PieceSelectionEvent::Reselect(square) => old(game)@.select(square),
        },
{
    match *event {
        PieceSelectionEvent::Selected(square) => {
            let selected = SelectedPiece::new(square, &game.board);
            game.selected_piece = selected;
        },
        PieceSelectionEvent::Deselected(_) => {
            deselect_piece(game);
        },
        PieceSelectionEvent::Reselect(square) => {
            deselect_piece(game);
            let selected = SelectedPiece::new(square, &game.board);
            game.selected_piece = selected;
        },
    }
}

} // verus!
