//! The state of a game: the pieces, whose turn it is, the selection and the
//! moves played, and how a click changes them.

use crate::board::components::{Board, Location, Piece, PieceColor};
use crate::board::events::{CheckedPieceMoveEvent, MoveClass, MoveTarget};
use crate::board::targets::targets_on;
use crate::board::SelectedPiece;
use vstd::prelude::*;

verus! {

/// The side whose turn it is.
#[derive(Copy, Clone, Debug, PartialEq, Eq, Structural)]
pub struct CurrentPlayer(pub PieceColor);

impl CurrentPlayer {
    /// Hands the turn to the other side.
    pub fn switch(&mut self)
        ensures
            final(self).0 == old(self).0.spec_opposite(),
    {
        self.0 = self.0.opposite();
    }
}

/// A move that was played: the piece as it was when it was picked up, the
/// square it left and the square it went to.
#[derive(Copy, Clone, Debug, PartialEq, Eq, Structural)]
pub struct PlayedMove {
    pub piece: Piece,
    pub source: Location,
    pub target: Location,
}

impl PlayedMove {
    /// The move as written in the move list: the letter of the piece, the square
    /// it left and the square it went to, as in `Pe2e4`.
    pub open spec fn spec_notation(&self) -> Seq<char> {
        seq![self.piece.spec_notation()] + self.source.spec_notation()
            + self.target.spec_notation()
    }

    /// The move of the selected piece of `event` to `target`.
    pub fn from_event(event: &CheckedPieceMoveEvent, target: Location) -> (played: PlayedMove)
        ensures
            played == (PlayedMove {
                piece: event.selected.piece_comp,
                source: event.selected.location_comp,
                target,
            }),
    {
        PlayedMove {
            piece: event.selected.piece_comp,
            source: event.selected.location_comp,
            target,
        }
    }

    /// The move as written in the move list.
    pub fn notation(&self) -> (text: String)
        requires
            self.source.on_board(),
            self.target.on_board(),
        ensures
            text@ == self.spec_notation(),
    {
        let mut text = String::new();
        text.append(self.piece.kind_name());
        let source = self.source.notation();
        text.append(source.as_str());
        let target = self.target.notation();
        text.append(target.as_str());
        assert(text@ =~= self.spec_notation());
        text
    }
}

/// The moves played so far, oldest first.
#[derive(Debug)]
pub struct PlayedMoves(pub Vec<PlayedMove>);

/// What a click or a release came to.
#[derive(Copy, Clone, Debug, PartialEq, Eq, Structural)]
pub enum Outcome {
    /// Nothing changed.
    Ignored,
    /// The piece on this square is now selected, and nothing was before.
    Selected(Location),
    /// The piece on this square is no longer selected.
    Deselected(Location),
    /// The piece on this square is now selected in place of another.
    Reselected(Location),
    /// This move was played.
    Moved(PlayedMove),
    /// The selected piece was put back, for the reason given.
    Rejected(MoveTarget),
}

/// A game in progress.
#[derive(Debug)]
pub struct Game {
    pub board: Board,
    pub current_player: CurrentPlayer,
    pub selected_piece: Option<SelectedPiece>,
    pub played_moves: PlayedMoves,
}

/// What a game holds, as mathematical values: the pieces by square, the side
/// to move, the square of the selected piece if one is selected, and the moves
/// played.
pub struct GameState {
    pub pieces: Map<Location, Piece>,
    pub turn: PieceColor,
    pub selected: Option<Location>,
    pub played: Seq<PlayedMove>,
}

impl GameState {
    /// Whether the side to move has a piece on `square`.
    pub open spec fn owns(self, square: Location) -> bool {
        self.pieces.contains_key(square) && self.pieces[square].color == self.turn
    }

    /// Every piece stands on the board, and a selected piece is one of the
    /// side to move.
    pub open spec fn valid(self) -> bool {
        &&& forall|square: Location| #[trigger]
            self.pieces.contains_key(square) ==> square.on_board()
        &&& self.selected matches Some(from) ==> self.owns(from)
    }

    /// The state with the piece on `square` selected.
    pub open spec fn select(self, square: Location) -> GameState {
        GameState {
            pieces: self.pieces,
            turn: self.turn,
            selected: Some(square),
            played: self.played,
        }
    }

    /// The state with nothing selected.
    pub open spec fn deselect(self) -> GameState {
        GameState {
            pieces: self.pieces,
            turn: self.turn,
            selected: None,
            played: self.played,
        }
    }

    /// What letting go of the piece on `from` over `target` is taken for.
    ///
    /// Off the board it is out of bound; over its own square it is no move; over
    /// another piece of its side it is the choice of that piece; over one of its
    /// targets it is a legal move; anywhere else it is an illegal one.
    pub open spec fn classify(self, from: Location, target: Option<Location>) -> MoveClass {
        match target {
            None => MoveClass::Target(MoveTarget::OutOfBound),
            Some(to) => if to == from {
                MoveClass::Target(MoveTarget::Unmoved)
            } else if self.pieces.contains_key(to) && self.pieces[to].color
                == self.pieces[from].color {
                MoveClass::Reselect
            } else if targets_on(self.pieces, from).contains(to) {
                MoveClass::Target(MoveTarget::Legal(to))
            } else {
                MoveClass::Target(MoveTarget::Illegal)
            },
        }
    }

    /// The pieces after the piece on `from` has gone to `to`: it has left
    /// `from`, it stands on `to` as a piece that has moved, and what stood on
    /// `to` is gone.
    pub open spec fn moved(self, from: Location, to: Location) -> Map<Location, Piece> {
        self.pieces.remove(from).insert(to, self.pieces[from].moved())
    }

    /// The state after the piece on `from` has been put on `to`: the pieces
    /// stand as `moved` says, the turn has passed to the other side, and nothing
    /// is selected.
    pub open spec fn perform(self, from: Location, to: Location) -> GameState {
        GameState {
            pieces: self.moved(from, to),
            turn: self.turn.spec_opposite(),
            selected: None,
            played: self.played,
        }
    }

    /// The state with `played` written down as the last move.
    pub open spec fn record(self, played: PlayedMove) -> GameState {
        GameState {
            pieces: self.pieces,
            turn: self.turn,
            selected: self.selected,
            played: self.played.push(played),
        }
    }

    /// The state after the piece on `from` has been moved to `to`: the move is
    /// performed, and written down with the piece as it was before.
    pub open spec fn commit(self, from: Location, to: Location) -> GameState {
        self.perform(from, to).record(
            PlayedMove { piece: self.pieces[from], source: from, target: to },
        )
    }

    /// The state after the piece on `from` has been let go over `target`.
    pub open spec fn attempt(self, from: Location, target: Option<Location>) -> GameState {
        match self.classify(from, target) {
            MoveClass::Reselect => self.select(target.unwrap()),
            MoveClass::Target(MoveTarget::Legal(to)) => self.commit(from, to),
            MoveClass::Target(_) => self.deselect(),
        }
    }

    /// What letting go of the piece on `from` over `target` comes to.
    pub open spec fn attempt_outcome(self, from: Location, target: Option<Location>) -> Outcome {
        match self.classify(from, target) {
            MoveClass::Reselect => Outcome::Reselected(target.unwrap()),
            MoveClass::Target(MoveTarget::Legal(to)) => Outcome::Moved(
                PlayedMove { piece: self.pieces[from], source: from, target: to },
            ),
            MoveClass::Target(rejected) => Outcome::Rejected(rejected),
        }
    }

    /// What a click on `square` comes to.
    pub open spec fn press_outcome(self, square: Location) -> Outcome {
        match self.selected {
            None => if self.owns(square) {
                Outcome::Selected(square)
            } else {
                Outcome::Ignored
            },
            Some(from) => if square == from {
                Outcome::Deselected(from)
            } else {
                self.attempt_outcome(from, Some(square))
            },
        }
    }

    /// What letting go of the mouse button over `target` comes to.
    pub open spec fn release_outcome(self, target: Option<Location>) -> Outcome {
        match self.selected {
            None => Outcome::Ignored,
            Some(from) => self.attempt_outcome(from, target),
        }
    }

    /// The state after a click on `square`.
    ///
    /// With nothing selected, a piece of the side to move is selected and any
    /// other click is passed over. With a piece selected, a click on its square
    /// drops the selection, and a click elsewhere lets the piece go there.
    pub open spec fn press(self, square: Location) -> GameState {
        match self.selected {
            None => if self.owns(square) {
                self.select(square)
            } else {
                self
            },
            Some(from) => if square == from {
                self.deselect()
            } else {
                self.attempt(from, Some(square))
            },
        }
    }

    /// The state after the mouse button is let go over `target`, a square or
    /// `None` off the board.
    pub open spec fn release(self, target: Option<Location>) -> GameState {
        match self.selected {
            None => self,
            Some(from) => self.attempt(from, target),
        }
    }
}

impl View for Game {
    type V = GameState;

    open spec fn view(&self) -> GameState {
        GameState {
            pieces: self.board@,
            turn: self.current_player.0,
            selected: match self.selected_piece {
                Some(picked) => Some(picked.location_comp),
                None => None,
            },
            played: self.played_moves.0@,
        }
    }
}

impl Game {
    /// Whether the game is in order: the board is whole, and a selection is
    /// that of a piece of the side to move, with its targets as the pieces
    /// stand now.
    pub open spec fn wf(&self) -> bool {
        &&& self.board.wf()
        &&& self.selected_piece matches Some(picked) ==> picked.selects(self.board@)
            && picked.piece_comp.color == self.current_player.0
    }

    /// A game in order has a valid state.
    pub proof fn lemma_valid(&self)
        requires
            self.wf(),
        ensures
            self@.valid(),
    {
        assert forall|square: Location| #[trigger] self@.pieces.contains_key(square) implies square.on_board() by {
            self.board.lemma_occupied_on_board(square);
        }
    }
}

} // verus!
