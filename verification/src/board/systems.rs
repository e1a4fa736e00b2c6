//! The steps that take a click to a selection or to a move.
//!
//! A click first becomes an event (`input`). A wish to move is then looked at
//! (`handle_unchecked_move_events`), and the move is played or the piece put
//! back (`handle_checked_move_events`). A played move is written down
//! (`record_played_moves`). `Game::press` and `Game::release` run these steps
//! in that order for one click.

pub mod input;
pub mod selection;
pub mod startup;

use crate::board::components::{resolve_piece, Board, Location, Piece, PieceColor};
use crate::board::events::{
    CheckedEvent, CheckedPieceMoveEvent, InputEvent, MoveClass, MoveTarget, PieceSelectionEvent,
    PlayedMoveEvent, UncheckedPieceMoveEvent,
};
use crate::board::game::{CurrentPlayer, Game, GameState, Outcome, PlayedMove, PlayedMoves};
use crate::board::systems::input::{left_click_piece_release, left_click_piece_selection};
use crate::board::systems::selection::handle_piece_selection_events;
use crate::board::systems::startup::{setup_board, starting_position};
use crate::board::utils::{contains, deselect_piece, update_entity_for_move};
use crate::board::Selection;
use vstd::prelude::*;

verus! {

/// What letting go of the piece of `selected` over `target` is taken for, as
/// the pieces stand.
///
/// Off the board it is out of bound; over its own square it is no move; over
/// another piece of its side it is the choice of that piece; over one of the
/// targets of `selected` it is a legal move; anywhere else it is an illegal one.
pub open spec fn classified(
    selected: Selection,
    pieces: Map<Location, Piece>,
    target: Option<Location>,
) -> MoveClass {
    match target {
        None => MoveClass::Target(MoveTarget::OutOfBound),
        Some(to) => if to == selected.location {
            MoveClass::Target(MoveTarget::Unmoved)
        } else if pieces.contains_key(to) && pieces[to].color == selected.piece.color {
            MoveClass::Reselect
        } else if selected.targets.contains(to) {
            MoveClass::Target(MoveTarget::Legal(to))
        } else {
            MoveClass::Target(MoveTarget::Illegal)
        },
    }
}

/// Says what the wish to move in `event` is taken for, as the pieces stand.
pub fn check_move_legality(board: &Board, event: &UncheckedPieceMoveEvent) -> (class: MoveClass)
    requires
        board.wf(),
    ensures
        class == classified(event.selected@, board@, event.target),
{
    let target = match event.target {
        Some(target) => target,
        None => {
            return MoveClass::Target(MoveTarget::OutOfBound);
        },
    };
    if target == event.selected.location_comp {
        return MoveClass::Target(MoveTarget::Unmoved);
    }
    // check if the new square is occupied by a same color piece
    if let Some(piece_comp) = resolve_piece(board, &target) {
        if piece_comp.color == event.selected.piece_comp.color {
            return MoveClass::Reselect;
        }
    }
    // check if the target square makes up a legal move
    if contains(event.selected.possible_targets.as_slice(), &target) {
        MoveClass::Target(MoveTarget::Legal(target))
    } else {
        MoveClass::Target(MoveTarget::Illegal)
    }
}

/// Looks at a wish to move: it becomes the choice of another piece where the
/// target holds a piece of the mover's side, and else a move with what it
/// comes to.
pub fn handle_unchecked_move_events(board: &Board, event: &UncheckedPieceMoveEvent) -> (checked:
    CheckedEvent)
    requires
        board.wf(),
    ensures
        match checked {
            CheckedEvent::Selection(selection) => classified(
                event.selected@,
                board@,
                event.target,
            ) == MoveClass::Reselect && selection == PieceSelectionEvent::Reselect(
                event.target.unwrap(),
            ),
            CheckedEvent::Move(checked_move) => classified(event.selected@, board@, event.target)
                == MoveClass::Target(checked_move.target) && checked_move.selected@
                == event.selected@,
        },
{
    match check_move_legality(board, event) {
        MoveClass::Reselect => CheckedEvent::Selection(
            PieceSelectionEvent::Reselect(event.target.unwrap()),
        ),
        MoveClass::Target(MoveTarget::Legal(_)) => CheckedEvent::Move(
            CheckedPieceMoveEvent::legal(event),
        ),
        MoveClass::Target(MoveTarget::Illegal) => CheckedEvent::Move(
            CheckedPieceMoveEvent::illegal(event),
        ),
        MoveClass::Target(rejected) => CheckedEvent::Move(
            CheckedPieceMoveEvent::new(event.selected.clone(), rejected),
        ),
    }
}

/// Whether `event` is about the piece that is selected in `game`.
pub open spec fn concerns(game: &Game, event: &CheckedPieceMoveEvent) -> bool {
    game.selected_piece matches Some(picked) && picked.location_comp
        == event.selected.location_comp && picked.piece_comp == event.selected.piece_comp
}

/// Carries out a checked move. A legal move is played: the piece goes to its
/// target, where it takes what stands there, it counts as moved from now on,
/// and the turn passes to the other side. Any other move leaves the pieces and
/// the turn as they are. Either way nothing is selected afterwards. An event
/// about a piece that is not the selected one changes nothing.
///
/// Returns the move that was played, if one was.
pub fn handle_checked_move_events(game: &mut Game, event: &CheckedPieceMoveEvent) -> (played:
    Option<PlayedMoveEvent>)
    requires
        old(game).wf(),
        event.target matches MoveTarget::Legal(to) ==> to.on_board(),
    ensures
        final(game).wf(),
        !concerns(old(game), event) ==> final(game)@ == old(game)@ && final(game).selected_piece
            == old(game).selected_piece && played.is_none(),
        concerns(old(game), event) ==> match event.target {
            MoveTarget::Legal(to) => final(game)@ == old(game)@.perform(
                event.selected.location_comp,
                to,
            ) && played == Some(
                PlayedMoveEvent(
                    PlayedMove {
                        piece: event.selected.piece_comp,
                        source: event.selected.location_comp,
                        target: to,
                    },
                ),
            ),
            _ => final(game)@ == old(game)@.deselect() && played.is_none(),
        },
{
    let concerned = match &game.selected_piece {
        Some(picked) => picked.location_comp == event.selected.location_comp && picked.piece_comp
            == event.selected.piece_comp,
        None => false,
    };
    if !concerned {
        return None;
    }
    match event.target {
        // on a legal move the piece goes to its target and the turn passes on
        MoveTarget::Legal(target) => {
            update_entity_for_move(&mut game.board, event, target);
            let played = PlayedMoveEvent(PlayedMove::from_event(event, target));
            game.current_player.switch();
            deselect_piece(game);
            assert(game@.pieces =~= old(game)@.moved(event.selected.location_comp, target));
            Some(played)
        },
        // on any other the piece is put back
        _ => {
            deselect_piece(game);
            None
        },
    }
}

/// Writes down a move that was played.
pub fn record_played_moves(played_moves: &mut PlayedMoves, event: &PlayedMoveEvent)
    ensures
        final(played_moves).0@ == old(played_moves).0@.push(event.0),
{
    played_moves.0.push(event.0);
}

impl Game {
    /// A new game: the pieces on their first squares, White to move, nothing
    /// selected and no move played.
    pub fn new() -> (game: Game)
        ensures
            game.wf(),
            game@ == (GameState {
                pieces: starting_position(),
                turn: PieceColor::White,
                selected: None,
                played: Seq::empty(),
            }),
    {
        Game {
            board: setup_board(),
            current_player: CurrentPlayer(PieceColor::White),
            selected_piece: None,
            played_moves: PlayedMoves(Vec::new()),
        }
    }

    /// Lets the selected piece go over `target`: looks at the wish to move,
    /// then selects another piece, plays the move or puts the piece back.
    fn attempt(&mut self, event: UncheckedPieceMoveEvent) -> (outcome: Outcome)
        requires
            old(self).wf(),
            old(self).selected_piece matches Some(picked) && picked@ == event.selected@,
        ensures
            final(self).wf(),
            final(self)@ == old(self)@.attempt(event.selected.location_comp, event.target),
            outcome == old(self)@.attempt_outcome(event.selected.location_comp, event.target),
    {
        proof {
            self.lemma_valid();
        }
        match handle_unchecked_move_events(&self.board, &event) {
            CheckedEvent::Selection(selection) => {
                handle_piece_selection_events(self, &selection);
                Outcome::Reselected(event.target.unwrap())
            },
            CheckedEvent::Move(checked) => {
                let rejected = checked.target;
                match handle_checked_move_events(self, &checked) {
                    Some(played) => {
                        record_played_moves(&mut self.played_moves, &played);
                        Outcome::Moved(played.0)
                    },
                    None => Outcome::Rejected(rejected),
                }
            },
        }
    }

    /// Takes a click on `square`.
    ///
    /// With nothing selected, a piece of the side to move is selected, with the
    /// squares it may go to, and any other click is passed over. With a piece
    /// selected, a click on its square drops the selection; a click on another
    /// piece of the same side selects that one instead; a click on one of the
    /// targets plays the move; and any other click puts the piece back.
    pub fn press(&mut self, square: Location) -> (outcome: Outcome)
        requires
            old(self).wf(),
        ensures
            final(self).wf(),
            final(self)@ == old(self)@.press(square),
            outcome == old(self)@.press_outcome(square),
    {
        match left_click_piece_selection(self, &square) {
            InputEvent::Ignored => Outcome::Ignored,
            InputEvent::Selection(selection) => {
                handle_piece_selection_events(self, &selection);
                match selection {
                    PieceSelectionEvent::Deselected(from) => Outcome::Deselected(from),
                    PieceSelectionEvent::Selected(from) => Outcome::Selected(from),
                    PieceSelectionEvent::Reselect(from) => Outcome::Reselected(from),
                }
            },
            InputEvent::Move(event) => self.attempt(event),
        }
    }

    /// Takes the letting go of the mouse button over `target`, a square or
    /// `None` off the board.
    ///
    /// With nothing selected nothing happens. With a piece selected, letting go
    /// over one of its targets plays the move; over another piece of the same
    /// side selects that one instead; and anywhere else, off the board and over
    /// its own square too, puts the piece back and drops the selection.
    pub fn release(&mut self, target: Option<Location>) -> (outcome: Outcome)
        requires
            old(self).wf(),
        ensures
            final(self).wf(),
            final(self)@ == old(self)@.release(target),
            outcome == old(self)@.release_outcome(target),
    {
        match left_click_piece_release(self, target) {
            Some(event) => self.attempt(event),
            None => Outcome::Ignored,
        }
    }
}

} // verus!
