//! What the steps of a click hand to one another.

use crate::board::components::Location;
use crate::board::game::PlayedMove;
use crate::board::SelectedPiece;
use vstd::prelude::*;

verus! {

/// A wish to move the selected piece, not yet looked at. The target is the
/// square the piece was let go over, or `None` if that was off the board.
#[derive(Debug)]
pub struct UncheckedPieceMoveEvent {
    pub selected: SelectedPiece,
    pub target: Option<Location>,
}

impl UncheckedPieceMoveEvent {
    /// The wish to move the piece of `selected` to `target`.
    pub fn new(selected: SelectedPiece, target: Option<Location>) -> (event: Self)
        ensures
            event.selected == selected,
            event.target == target,
    {
        Self { selected, target }
    }
}

/// What a wish to move comes to.
#[derive(Copy, Clone, Debug, PartialEq, Eq, Structural)]
pub enum MoveTarget {
    /// The piece may go to this square.
    Legal(Location),
    /// The piece may not go to the square it was let go over.
    Illegal,
    /// The piece was let go off the board.
    OutOfBound,
    /// The piece was let go over the square it stands on.
    Unmoved,
}

/// A wish to move the selected piece, together with what it comes to.
#[derive(Debug)]
pub struct CheckedPieceMoveEvent {
    pub selected: SelectedPiece,
    pub target: MoveTarget,
}

impl CheckedPieceMoveEvent {
    /// The wish to move the piece of `selected`, with what it comes to.
    pub fn new(selected: SelectedPiece, target: MoveTarget) -> (event: Self)
        ensures
            event.selected == selected,
            event.target == target,
    {
        Self { selected, target }
    }

    /// The move that `event` asks for, found to be allowed.
    pub fn legal(event: &UncheckedPieceMoveEvent) -> (checked: Self)
        requires
            event.target.is_some(),
        ensures
            checked.selected@ == event.selected@,
            checked.target == MoveTarget::Legal(event.target.unwrap()),
    {
        Self::new(event.selected.clone(), MoveTarget::Legal(event.target.unwrap()))
    }

    /// The move that `event` asks for, found not to be allowed.
    pub fn illegal(event: &UncheckedPieceMoveEvent) -> (checked: Self)
        ensures
            checked.selected@ == event.selected@,
            checked.target == MoveTarget::Illegal,
    {
        Self::new(event.selected.clone(), MoveTarget::Illegal)
    }
}

/// What a wish to move is taken for: the choice of another piece of the
/// mover's side, or a move with what it comes to.
#[derive(Copy, Clone, Debug, PartialEq, Eq, Structural)]
pub enum MoveClass {
    Reselect,
    Target(MoveTarget),
}

/// What a click or a release asks for.
#[derive(Debug)]
pub enum InputEvent {
    /// Nothing: the click is passed over.
    Ignored,
    /// A change of the selection.
    Selection(PieceSelectionEvent),
    /// A wish to move the selected piece.
    Move(UncheckedPieceMoveEvent),
}

/// What looking at a wish to move gives: the choice of another piece, or the
/// move with what it comes to.
#[derive(Debug)]
pub enum CheckedEvent {
    Selection(PieceSelectionEvent),
    Move(CheckedPieceMoveEvent),
}

/// A change of the selection; each names the square of the piece it is about.
#[derive(Copy, Clone, Debug, PartialEq, Eq, Structural)]
pub enum PieceSelectionEvent {
    Selected(Location),
    Deselected(Location),
    Reselect(Location),
}

/// A move that has just been played.
#[derive(Copy, Clone, Debug, PartialEq, Eq, Structural)]
pub struct PlayedMoveEvent(pub PlayedMove);

} // verus!
