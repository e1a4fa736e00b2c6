//! From a click or a release to the event it stands for.

use crate::board::components::{resolve_piece, Location};
use crate::board::events::{InputEvent, PieceSelectionEvent, UncheckedPieceMoveEvent};
use crate::board::game::Game;
use vstd::prelude::*;

verus! {

/// Says what a click on `square` asks for.
///
/// With a piece selected, a click on its square asks to drop the selection, and
/// a click on any other square asks to move the piece there. With nothing
/// selected, a click on a piece of the side to move asks to select it, and any
/// other click asks for nothing.
pub fn left_click_piece_selection(game: &Game, square: &Location) -> (input: InputEvent)
    requires
        game.wf(),
    ensures
        match game.selected_piece {
            Some(picked) => if *square == picked.location_comp {
                input matches InputEvent::Selection(selection) && selection
                    == PieceSelectionEvent::Deselected(*square)
            } else {
                input matches InputEvent::Move(event) && event.selected@ == picked@ && event.target
                    == Some(*square)
            },
            None => if game@.owns(*square) {
                input matches InputEvent::Selection(selection) && selection
                    == PieceSelectionEvent::Selected(*square)
            } else {
                input is Ignored
            },
        },
{
    let piece = resolve_piece(&game.board, square);
    match &game.selected_piece {
        Some(selected) => {
            // consider it a piece deselection if the same square was clicked again
            if *square == selected.location_comp {
                match piece {
                    Some(_) => InputEvent::Selection(PieceSelectionEvent::Deselected(*square)),
                    None => InputEvent::Ignored,
                }
            } else {
                InputEvent::Move(UncheckedPieceMoveEvent::new(selected.clone(), Some(*square)))
            }
        },
        None => {
            match piece {
                Some(comp) => {
                    if game.current_player.0 != comp.color {
                        InputEvent::Ignored
                    } else {
                        InputEvent::Selection(PieceSelectionEvent::Selected(*square))
                    }
                },
                None => InputEvent::Ignored,
            }
        },
    }
}

/// Says what letting go of the mouse button over `target` asks for: to move
/// the selected piece there, or nothing if no piece is selected. `None` as
/// target stands for a place off the board.
pub fn left_click_piece_release(game: &Game, target: Option<Location>) -> (input: Option<
    UncheckedPieceMoveEvent,
>)
    ensures
        match game.selected_piece {
            Some(picked) => input matches Some(event) && event.selected@ == picked@ && event.target
                == target,
            None => input.is_none(),
        },
{
    match &game.selected_piece {
        Some(selected) => Some(UncheckedPieceMoveEvent::new(selected.clone(), target)),
        None => None,
    }
}

} // verus!
