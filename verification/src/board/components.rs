//! Squares, files, colors and pieces.

use vstd::prelude::*;

verus! {

/// The letter that algebraic notation gives to the file with index `x`.
pub open spec fn file_letter(x: int) -> char {
    if x == 0 {
        'a'
    } else if x == 1 {
        'b'
    } else if x == 2 {
        'c'
    } else if x == 3 {
        'd'
    } else if x == 4 {
        'e'
    } else if x == 5 {
        'f'
    } else if x == 6 {
        'g'
    } else {
        'h'
    }
}

/// The digit that algebraic notation gives to the rank with index `y`.
pub open spec fn rank_digit(y: int) -> char {
    if y == 0 {
        '1'
    } else if y == 1 {
        '2'
    } else if y == 2 {
        '3'
    } else if y == 3 {
        '4'
    } else if y == 4 {
        '5'
    } else if y == 5 {
        '6'
    } else if y == 6 {
        '7'
    } else {
        '8'
    }
}

/// A square of the board, by file index `x` and rank index `y`, both counted from zero.
///
/// Squares are ordered by file, and squares of one file by rank.
#[derive(Copy, Clone, Debug, PartialEq, Eq, Ord, Hash, Structural)]
pub struct Location {
    pub x: usize,
    pub y: usize,
}

impl Location {
    /// Whether both coordinates lie on the eight by eight board.
    pub open spec fn on_board(&self) -> bool {
        self.x < 8 && self.y < 8
    }

    /// The square with the given mathematical coordinates.
    pub open spec fn at(x: int, y: int) -> Location {
        Location { x: x as usize, y: y as usize }
    }

    /// The square `dx` files and `dy` ranks away, if that is still on the board.
    pub open spec fn spec_translate(&self, dx: int, dy: int) -> Option<Location> {
        if 0 <= self.x + dx < 8 && 0 <= self.y + dy < 8 {
            Some(Location::at(self.x + dx, self.y + dy))
        } else {
            None
        }
    }

    /// The two characters of the square's name, such as `e4`.
    pub open spec fn spec_notation(&self) -> Seq<char> {
        seq![file_letter(self.x as int), rank_digit(self.y as int)]
    }

    /// The square with file index `x` and rank index `y`.
    pub fn new(x: usize, y: usize) -> (location: Location)
        requires
            x < 8,
            y < 8,
        ensures
            location == (Location { x, y }),
            location.on_board(),
    {
        Location { x, y }
    }

    /// Moves by `dx` files and `dy` ranks; `None` when that leaves the board.
    pub fn translate(&self, dx: isize, dy: isize) -> (moved: Option<Location>)
        ensures
            moved == self.spec_translate(dx as int, dy as int),
    {
        let nx: i128 = self.x as i128 + dx as i128;
        let ny: i128 = self.y as i128 + dy as i128;
        if 0 <= nx && nx < 8 && 0 <= ny && ny < 8 {
            Some(Location { x: nx as usize, y: ny as usize })
        } else {
            None
        }
    }

    /// The square's name in algebraic notation: file letter, then rank number.
    pub fn notation(&self) -> (name: String)
        requires
            self.on_board(),
        ensures
            name@ == self.spec_notation(),
    {
        let mut name = String::new();
        name.append(File::from_index(self.x).name());
        name.append(rank_name(rank_for_index(self.y)));
        assert(name@ =~= self.spec_notation());
        name
    }
}

/// The rank number, counted from one, of the rank with the given index.
pub fn rank_for_index(index: usize) -> (rank: usize)
    requires
        index < 8,
    ensures
        rank == index + 1,
{
    index + 1
}

/// The decimal digit of a rank number.
fn rank_name(rank: usize) -> (name: &'static str)
    requires
        1 <= rank <= 8,
    ensures
        name@ == seq![rank_digit(rank - 1)],
{
    proof {
        reveal_strlit("1");
        reveal_strlit("2");
        reveal_strlit("3");
        reveal_strlit("4");
        reveal_strlit("5");
        reveal_strlit("6");
        reveal_strlit("7");
        reveal_strlit("8");
    }
    let name = if rank == 1 {
        "1"
    } else if rank == 2 {
        "2"
    } else if rank == 3 {
        "3"
    } else if rank == 4 {
        "4"
    } else if rank == 5 {
        "5"
    } else if rank == 6 {
        "6"
    } else if rank == 7 {
        "7"
    } else {
        "8"
    };
    assert(name@ =~= seq![rank_digit(rank - 1)]);
    name
}

/// The shade of a square.
#[derive(Copy, Clone, Debug, PartialEq, Eq, Structural)]
pub enum SquareColor {
    Light,
    Dark,
}

/// The shade of the square at file index `x` and rank index `y`: the corner `a1` is dark.
pub fn square_color(x: usize, y: usize) -> (color: SquareColor)
    requires
        x + y < usize::MAX,
    ensures
        color == if (x + y) % 2 == 1 {
            SquareColor::Light
        } else {
            SquareColor::Dark
        },
{
    if (x + y + 1) % 2 == 0 {
        SquareColor::Light
    } else {
        SquareColor::Dark
    }
}

/// A column of the chessboard, named `a` to `h` in algebraic notation.
#[derive(Copy, Clone, Debug, PartialEq, Eq, PartialOrd, Ord, Hash, Structural)]
pub enum File {
    A,
    B,
    C,
    D,
    E,
    F,
    G,
    H,
}

impl File {
    /// The position of the file, counted from zero at `a`.
    pub open spec fn index(&self) -> int {
        match self {
            File::A => 0,
            File::B => 1,
            File::C => 2,
            File::D => 3,
            File::E => 4,
            File::F => 5,
            File::G => 6,
            File::H => 7,
        }
    }

    /// The file at the given position, counted from zero at `a`.
    pub fn from_index(index: usize) -> (file: File)
        requires
            index < 8,
        ensures
            file.index() == index,
    {
        if index == 0 {
            File::A
        } else if index == 1 {
            File::B
        } else if index == 2 {
            File::C
        } else if index == 3 {
            File::D
        } else if index == 4 {
            File::E
        } else if index == 5 {
            File::F
        } else if index == 6 {
            File::G
        } else {
            File::H
        }
    }

    /// The file's lower-case letter.
    pub fn letter(&self) -> (letter: char)
        ensures
            letter == file_letter(self.index()),
    {
        match self {
            File::A => 'a',
            File::B => 'b',
            File::C => 'c',
            File::D => 'd',
            File::E => 'e',
            File::F => 'f',
            File::G => 'g',
            File::H => 'h',
        }
    }

    /// The file's letter as a string of one character.
    pub fn name(&self) -> (name: &'static str)
        ensures
            name@ == seq![file_letter(self.index())],
    {
        proof {
            reveal_strlit("a");
            reveal_strlit("b");
            reveal_strlit("c");
            reveal_strlit("d");
            reveal_strlit("e");
            reveal_strlit("f");
            reveal_strlit("g");
            reveal_strlit("h");
        }
        let name = match self {
            File::A => "a",
            File::B => "b",
            File::C => "c",
            File::D => "d",
            File::E => "e",
            File::F => "f",
            File::G => "g",
            File::H => "h",
        };
        assert(name@ =~= seq![file_letter(self.index())]);
        name
    }
}

/// What kind of piece stands on a square.
#[derive(Copy, Clone, Debug, PartialEq, Eq, Structural)]
pub enum PieceType {
    King,
    Queen,
    Rook,
    Bishop,
    Knight,
    Pawn,
}

/// The side a piece belongs to.
#[derive(Copy, Clone, Debug, PartialEq, Eq, Structural)]
pub enum PieceColor {
    Black,
    White,
}

impl PieceColor {
    /// The other side.
    pub open spec fn spec_opposite(&self) -> PieceColor {
        match self {
            PieceColor::Black => PieceColor::White,
            PieceColor::White => PieceColor::Black,
        }
    }

    /// The other side.
    pub fn opposite(&self) -> (other: PieceColor)
        ensures
            other == self.spec_opposite(),
    {
        match self {
            PieceColor::Black => PieceColor::White,
            PieceColor::White => PieceColor::Black,
        }
    }

    /// The rank step of this side's pawns: up the board for White, down for Black.
    pub open spec fn forward(&self) -> int {
        match self {
            PieceColor::White => 1,
            PieceColor::Black => -1,
        }
    }
}

/// A piece: its kind, its side, and whether it has left its first square.
#[derive(Copy, Clone, Debug, PartialEq, Eq, Structural)]
pub struct Piece {
    pub kind: PieceType,
    pub color: PieceColor,
    pub has_moved: bool,
}

impl Piece {
    /// The upper-case letter that stands for the piece's kind.
    pub open spec fn spec_notation(&self) -> char {
        match self.kind {
            PieceType::King => 'K',
            PieceType::Queen => 'Q',
            PieceType::Rook => 'R',
            PieceType::Bishop => 'B',
            PieceType::Knight => 'N',
            PieceType::Pawn => 'P',
        }
    }

    /// The lower-case letter that stands for the piece's side.
    pub open spec fn color_letter(&self) -> char {
        match self.color {
            PieceColor::White => 'w',
            PieceColor::Black => 'b',
        }
    }

    /// The same piece once it has made a move.
    pub open spec fn moved(&self) -> Piece {
        Piece { kind: self.kind, color: self.color, has_moved: true }
    }

    /// A piece that has not moved yet.
    pub fn new(kind: PieceType, color: PieceColor) -> (piece: Piece)
        ensures
            piece == (Piece { kind, color, has_moved: false }),
    {
        Piece { kind, color, has_moved: false }
    }

    /// The upper-case letter that stands for the piece's kind.
    pub fn notation(&self) -> (letter: char)
        ensures
            letter == self.spec_notation(),
    {
        match self.kind {
            PieceType::King => 'K',
            PieceType::Queen => 'Q',
            PieceType::Rook => 'R',
            PieceType::Bishop => 'B',
            PieceType::Knight => 'N',
            PieceType::Pawn => 'P',
        }
    }

    /// The piece's letter as a string of one character.
    pub fn kind_name(&self) -> (name: &'static str)
        ensures
            name@ == seq![self.spec_notation()],
    {
        proof {
            reveal_strlit("K");
            reveal_strlit("Q");
            reveal_strlit("R");
            reveal_strlit("B");
            reveal_strlit("N");
            reveal_strlit("P");
        }
        let name = match self.kind {
            PieceType::King => "K",
            PieceType::Queen => "Q",
            PieceType::Rook => "R",
            PieceType::Bishop => "B",
            PieceType::Knight => "N",
            PieceType::Pawn => "P",
        };
        assert(name@ =~= seq![self.spec_notation()]);
        name
    }

    /// The name under which the piece's picture is kept: side letter, then kind letter.
    pub fn resource_name(&self) -> (name: String)
        ensures
            name@ == seq![self.color_letter(), self.spec_notation()],
    {
        proof {
            reveal_strlit("w");
            reveal_strlit("b");
        }
        let color = match self.color {
            PieceColor::White => "w",
            PieceColor::Black => "b",
        };
        let mut name = String::new();
        name.append(color);
        name.append(self.kind_name());
        assert(name@ =~= seq![self.color_letter(), self.spec_notation()]);
        name
    }
}

/// The pieces on the board: every square is empty or holds one piece.
#[derive(Debug)]
pub struct Board {
    squares: Vec<Option<Piece>>,
}

/// Where the square at file index `x` and rank index `y` is kept.
spec fn slot(x: int, y: int) -> int {
    x * 8 + y
}

impl View for Board {
    type V = Map<Location, Piece>;

    /// The occupied squares, each with the piece that stands on it.
    closed spec fn view(&self) -> Map<Location, Piece> {
        Map::new(
            |square: Location|
                square.on_board() && self.squares@[slot(square.x as int, square.y as int)].is_some(),
            |square: Location| self.squares@[slot(square.x as int, square.y as int)].unwrap(),
        )
    }
}

impl Board {
    /// Whether the board holds its sixty-four squares.
    pub closed spec fn wf(&self) -> bool {
        self.squares@.len() == 64
    }

    /// Only squares of the board are ever occupied.
    pub proof fn lemma_occupied_on_board(&self, square: Location)
        requires
            self@.contains_key(square),
        ensures
            square.on_board(),
    {
    }

    /// A board without pieces.
    pub fn empty() -> (board: Board)
        ensures
            board.wf(),
            board@ == Map::<Location, Piece>::empty(),
    {
        let mut squares: Vec<Option<Piece>> = Vec::new();
        let mut i: usize = 0;
        while i < 64
            invariant
                i <= 64,
                squares@.len() == i,
                forall|j: int| 0 <= j < i ==> squares@[j].is_none(),
            decreases 64 - i,
        {
            squares.push(None);
            i = i + 1;
        }
        let board = Board { squares };
        assert(board@ =~= Map::<Location, Piece>::empty());
        board
    }

    /// Puts `piece` on the empty square `location`.
    pub fn place(&mut self, location: Location, piece: Piece)
        requires
            old(self).wf(),
            location.on_board(),
            !old(self)@.contains_key(location),
        ensures
            final(self).wf(),
            final(self)@ == old(self)@.insert(location, piece),
    {
        self.squares[location.x * 8 + location.y] = Some(piece);
        assert(self@ =~= old(self)@.insert(location, piece));
    }

    /// Takes off the piece that stands on `location`, and returns it.
    pub fn remove(&mut self, location: &Location) -> (piece: Option<Piece>)
        requires
            old(self).wf(),
        ensures
            final(self).wf(),
            final(self)@ == old(self)@.remove(*location),
            piece == if old(self)@.contains_key(*location) {
                Some(old(self)@[*location])
            } else {
                None::<Piece>
            },
    {
        if location.x < 8 && location.y < 8 {
            let piece = self.squares[location.x * 8 + location.y];
            self.squares[location.x * 8 + location.y] = None;
            assert(self@ =~= old(self)@.remove(*location));
            piece
        } else {
            assert(self@ =~= old(self)@.remove(*location));
            None
        }
    }
}

/// The piece that stands on `square`, if there is one.
pub fn resolve_piece(board: &Board, square: &Location) -> (piece: Option<Piece>)
    requires
        board.wf(),
    ensures
        piece == if board@.contains_key(*square) {
            Some(board@[*square])
        } else {
            None::<Piece>
        },
{
    if square.x < 8 && square.y < 8 {
        board.squares[square.x * 8 + square.y]
    } else {
        None
    }
}

} // verus!
