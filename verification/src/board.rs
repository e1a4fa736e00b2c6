//! The chessboard: squares, pieces and where they may go.

pub mod components;
pub mod events;
pub mod game;
pub mod laws;
pub mod order;
pub mod systems;
pub mod targets;
pub mod utils;

use crate::board::components::{resolve_piece, Board, Location, Piece, PieceColor, PieceType};
use crate::board::targets::{
    bishop_target, candidate_targets, distance, dx, dy, king_target, knight_target, occupied,
    on_ray, pawn_target, queen_target, ray_square, reaches, rook_target, scaled, slide_target,
    step_towards, targets_on,
};
use crate::board::utils::{
    contains, grouped_piece_locations, join, lemma_translated, offer, offset_views, ordered_pairs,
    permutations, translate_from_offsets,
};
use vstd::prelude::*;

verus! {

/// The piece that is picked up: what it is, where it stands, and where it may go.
#[derive(Debug)]
pub struct SelectedPiece {
    pub piece_comp: Piece,
    pub location_comp: Location,
    pub possible_targets: Vec<Location>,
}

/// What a `SelectedPiece` holds, with its targets as a sequence.
pub struct Selection {
    pub piece: Piece,
    pub location: Location,
    pub targets: Seq<Location>,
}

impl View for SelectedPiece {
    type V = Selection;

    open spec fn view(&self) -> Selection {
        Selection {
            piece: self.piece_comp,
            location: self.location_comp,
            targets: self.possible_targets@,
        }
    }
}

impl Clone for SelectedPiece {
    /// A copy with the same piece, square and targets, the targets in the same order.
    fn clone(&self) -> (copy: Self)
        ensures
            copy@ == self@,
    {
        let mut possible_targets: Vec<Location> = Vec::new();
        let mut i: usize = 0;
        while i < self.possible_targets.len()
            invariant
                i <= self.possible_targets@.len(),
                possible_targets@ == self.possible_targets@.take(i as int),
            decreases self.possible_targets@.len() - i,
        {
            possible_targets.push(self.possible_targets[i]);
            assert(self.possible_targets@.take(i + 1) =~= self.possible_targets@.take(
                i as int,
            ).push(self.possible_targets@[i as int]));
            i = i + 1;
        }
        assert(self.possible_targets@.take(i as int) =~= self.possible_targets@);
        SelectedPiece {
            piece_comp: self.piece_comp,
            location_comp: self.location_comp,
            possible_targets,
        }
    }
}

/// `steps` steps along an axis in the direction given by the sign of `direction`.
fn scale(direction: isize, steps: isize) -> (offset: isize)
    requires
        -8 <= steps <= 8,
    ensures
        offset == scaled(direction as int, steps as int),
{
    if direction > 0 {
        steps
    } else if direction < 0 {
        -steps
    } else {
        0
    }
}

/// Why a ray that has given `reached` squares goes no further: the next square
/// is off the board or held by the mover's side, or the last square reached is
/// held by the opponent.
spec fn ray_stopped(
    from: Location,
    file_step: int,
    rank_step: int,
    same: Set<Location>,
    other: Set<Location>,
    reached: int,
) -> bool {
    let next = ray_square(from, file_step, rank_step, reached + 1);
    let last = ray_square(from, file_step, rank_step, reached);
    ||| next.is_none()
    ||| same.contains(next.unwrap())
    ||| reached >= 1 && other.contains(last.unwrap())
}

/// A square `k` steps along a ray lies on that ray, at distance `k`.
proof fn lemma_ray_square(from: Location, file_step: int, rank_step: int, k: int, square: Location)
    requires
        from.on_board(),
        -1 <= file_step <= 1,
        -1 <= rank_step <= 1,
        file_step != 0 || rank_step != 0,
        k >= 1,
        ray_square(from, file_step, rank_step, k) == Some(square),
    ensures
        square.on_board(),
        square != from,
        distance(from, square) == k,
        k <= 7,
        on_ray(from, file_step, rank_step, square),
        forall|i: int|
            1 <= i <= k ==> ray_square(from, file_step, rank_step, i) == Some(
                #[trigger] step_towards(from, square, i),
            ),
{
    assert(dx(from, square) == scaled(file_step, k));
    assert(dy(from, square) == scaled(rank_step, k));
    assert forall|i: int| 1 <= i <= k implies ray_square(from, file_step, rank_step, i) == Some(
        #[trigger] step_towards(from, square, i),
    ) by {
        assert(scaled(dx(from, square), i) == scaled(file_step, i));
        assert(scaled(dy(from, square), i) == scaled(rank_step, i));
    }
}

/// A square on a ray is the square as many steps along it as it is distant.
proof fn lemma_on_ray(from: Location, file_step: int, rank_step: int, to: Location)
    requires
        from.on_board(),
        to.on_board(),
        -1 <= file_step <= 1,
        -1 <= rank_step <= 1,
        on_ray(from, file_step, rank_step, to),
    ensures
        ray_square(from, file_step, rank_step, distance(from, to)) == Some(to),
        forall|i: int|
            1 <= i <= distance(from, to) ==> ray_square(from, file_step, rank_step, i) == Some(
                #[trigger] step_towards(from, to, i),
            ),
{
    let n = distance(from, to);
    assert(dx(from, to) == scaled(file_step, n));
    assert(dy(from, to) == scaled(rank_step, n));
    assert forall|i: int| 1 <= i <= n implies ray_square(from, file_step, rank_step, i) == Some(
        #[trigger] step_towards(from, to, i),
    ) by {
        assert(scaled(dx(from, to), i) == scaled(file_step, i));
        assert(scaled(dy(from, to), i) == scaled(rank_step, i));
    }
}

/// Once a ray has left the board it does not come back.
proof fn lemma_ray_leaves(from: Location, file_step: int, rank_step: int, k: int, n: int)
    requires
        from.on_board(),
        -1 <= file_step <= 1,
        -1 <= rank_step <= 1,
        1 <= k <= n,
        ray_square(from, file_step, rank_step, k).is_none(),
    ensures
        ray_square(from, file_step, rank_step, n).is_none(),
{
}

/// The squares walked along a ray up to where it stopped are exactly the
/// squares on that ray that a sliding piece may stop on.
proof fn lemma_ray_targets(
    from: Location,
    file_step: int,
    rank_step: int,
    same: Set<Location>,
    other: Set<Location>,
    walked: Seq<Location>,
)
    requires
        from.on_board(),
        -1 <= file_step <= 1,
        -1 <= rank_step <= 1,
        file_step != 0 || rank_step != 0,
        forall|j: int|
            0 <= j < walked.len() ==> ray_square(from, file_step, rank_step, j + 1) == Some(
                #[trigger] walked[j],
            ),
        forall|j: int| 0 <= j < walked.len() ==> !same.contains(#[trigger] walked[j]),
        forall|j: int| 0 <= j < walked.len() - 1 ==> !other.contains(#[trigger] walked[j]),
        ray_stopped(from, file_step, rank_step, same, other, walked.len() as int),
    ensures
        walked.no_duplicates(),
        forall|to: Location|
            walked.contains(to) <==> on_ray(from, file_step, rank_step, to) && slide_target(
                from,
                to,
                same,
                other,
            ),
{
    let m = walked.len() as int;
    assert forall|to: Location| walked.contains(to) implies on_ray(from, file_step, rank_step, to)
        && slide_target(from, to, same, other) by {
        let j = choose|j: int| 0 <= j < walked.len() && walked[j] == to;
        lemma_ray_square(from, file_step, rank_step, j + 1, to);
        assert forall|k: int| 1 <= k < distance(from, to) implies !occupied(
            same,
            other,
            #[trigger] step_towards(from, to, k),
        ) by {
            assert(ray_square(from, file_step, rank_step, (k - 1) + 1) == Some(walked[k - 1]));
        }
    }
    assert forall|to: Location|
        on_ray(from, file_step, rank_step, to) && slide_target(
            from,
            to,
            same,
            other,
        ) implies walked.contains(to) by {
        let n = distance(from, to);
        lemma_on_ray(from, file_step, rank_step, to);
        if n > m {
            let next = ray_square(from, file_step, rank_step, m + 1);
            if next.is_none() {
                lemma_ray_leaves(from, file_step, rank_step, m + 1, n);
            } else if same.contains(next.unwrap()) {
                assert(next == Some(step_towards(from, to, m + 1)));
            } else {
                assert(ray_square(from, file_step, rank_step, (m - 1) + 1) == Some(walked[m - 1]));
                assert(ray_square(from, file_step, rank_step, m) == Some(
                    step_towards(from, to, m),
                ));
            }
            assert(false);
        }
        assert(ray_square(from, file_step, rank_step, (n - 1) + 1) == Some(walked[n - 1]));
    }
    assert forall|i: int, j: int|
        0 <= i < walked.len() && 0 <= j < walked.len() && i != j implies walked[i] != walked[j] by {
        lemma_ray_square(from, file_step, rank_step, i + 1, walked[i]);
        lemma_ray_square(from, file_step, rank_step, j + 1, walked[j]);
    }
}

/// For eight offsets, no two alike: one of them leads from `from` to `to`
/// exactly if `to` is on the board and lies at one of them from `from`, and no
/// two of them lead to the same square.
proof fn lemma_offsets_reach(from: Location, steps: Seq<Seq<isize>>)
    requires
        steps.len() == 8,
        forall|i: int| 0 <= i < 8 ==> (#[trigger] steps[i]).len() == 2,
        forall|i: int, j: int|
            0 <= i < j < 8 ==> (#[trigger] steps[i])[0] != (#[trigger] steps[j])[0] || steps[i][1]
                != steps[j][1],
    ensures
        forall|to: Location|
            (exists|i: int|
                0 <= i < steps.len() && #[trigger] from.spec_translate(
                    steps[i][0] as int,
                    steps[i][1] as int,
                ) == Some(to)) <==> to.on_board() && exists|i: int|
                0 <= i < 8 && dx(from, to) == (#[trigger] steps[i])[0] && dy(from, to)
                    == steps[i][1],
        forall|i: int, j: int|
            0 <= i < j < steps.len() && (#[trigger] from.spec_translate(
                steps[i][0] as int,
                steps[i][1] as int,
            )).is_some() ==> from.spec_translate(steps[i][0] as int, steps[i][1] as int)
                != #[trigger] from.spec_translate(steps[j][0] as int, steps[j][1] as int),
{
    assert forall|to: Location|
        (exists|i: int|
            0 <= i < steps.len() && #[trigger] from.spec_translate(
                steps[i][0] as int,
                steps[i][1] as int,
            ) == Some(to)) implies to.on_board() && exists|i: int|
        0 <= i < 8 && dx(from, to) == (#[trigger] steps[i])[0] && dy(from, to) == steps[i][1] by {
        let i = choose|i: int|
            0 <= i < steps.len() && #[trigger] from.spec_translate(
                steps[i][0] as int,
                steps[i][1] as int,
            ) == Some(to);
        assert(dx(from, to) == steps[i][0] && dy(from, to) == steps[i][1]);
    }
    assert forall|to: Location|
        to.on_board() && (exists|i: int|
            0 <= i < 8 && dx(from, to) == (#[trigger] steps[i])[0] && dy(from, to)
                == steps[i][1]) implies exists|i: int|
        0 <= i < steps.len() && #[trigger] from.spec_translate(
            steps[i][0] as int,
            steps[i][1] as int,
        ) == Some(to) by {
        let i = choose|i: int|
            0 <= i < 8 && dx(from, to) == (#[trigger] steps[i])[0] && dy(from, to) == steps[i][1];
        assert(from.spec_translate(steps[i][0] as int, steps[i][1] as int) == Some(to));
    }
}

/// One step of taking out the squares of the mover's side: `kept` holds what
/// is left of the first `i` squares of `reached`, and the next square is added
/// to it unless it is one of `same`.
proof fn lemma_keep_step(reached: Seq<Location>, same: Seq<Location>, kept: Seq<Location>, i: int)
    requires
        0 <= i < reached.len(),
        reached.no_duplicates(),
        kept.no_duplicates(),
        forall|to: Location|
            #![trigger kept.contains(to)]
            #![trigger reached.take(i).contains(to)]
            kept.contains(to) <==> reached.take(i).contains(to) && !same.contains(to),
    ensures
        same.contains(reached[i]) ==> forall|to: Location|
            #![trigger kept.contains(to)]
            #![trigger reached.take(i + 1).contains(to)]
            kept.contains(to) <==> reached.take(i + 1).contains(to) && !same.contains(to),
        !same.contains(reached[i]) ==> kept.push(reached[i]).no_duplicates() && forall|
            to: Location,
        |
            #![trigger kept.push(reached[i]).contains(to)]
            #![trigger reached.take(i + 1).contains(to)]
            kept.push(reached[i]).contains(to) <==> reached.take(i + 1).contains(to)
                && !same.contains(to),
{
    let square = reached[i];
    let before = reached.take(i);
    let after = reached.take(i + 1);
    let more = kept.push(square);
    assert(after =~= before.push(square));
    assert forall|to: Location| after.contains(to) <==> before.contains(to) || to == square by {
        if before.contains(to) {
            let j = choose|j: int| 0 <= j < before.len() && before[j] == to;
            assert(after[j] == to);
        }
        if to == square {
            assert(after[i] == to);
        }
        if after.contains(to) {
            let j = choose|j: int| 0 <= j < after.len() && after[j] == to;
            if j < i {
                assert(before[j] == to);
            }
        }
    }
    assert forall|to: Location| more.contains(to) <==> kept.contains(to) || to == square by {
        if kept.contains(to) {
            let j = choose|j: int| 0 <= j < kept.len() && kept[j] == to;
            assert(more[j] == to);
        }
        if to == square {
            assert(more[kept.len() as int] == to);
        }
        if more.contains(to) {
            let j = choose|j: int| 0 <= j < more.len() && more[j] == to;
            if j < kept.len() {
                assert(kept[j] == to);
            }
        }
    }
    if before.contains(square) {
        let j = choose|j: int| 0 <= j < before.len() && before[j] == square;
        assert(reached[j] == reached[i]);
    }
    assert(!kept.contains(square));
    if !same.contains(square) {
        assert forall|a: int, b: int|
            0 <= a < more.len() && 0 <= b < more.len() && a != b implies more[a] != more[b] by {
            if a < kept.len() && b < kept.len() {
            } else if a < kept.len() {
                assert(kept.contains(more[a]));
            } else {
                assert(kept.contains(more[b]));
            }
        }
    }
}

impl SelectedPiece {
    /// Whether this is the selection of the piece on its square as the pieces
    /// stand: the piece is the one on that square, and the targets are, each
    /// once, the squares it may be moved to.
    pub open spec fn selects(&self, pieces: Map<Location, Piece>) -> bool {
        &&& pieces.contains_key(self.location_comp)
        &&& pieces[self.location_comp] == self.piece_comp
        &&& self.possible_targets@.no_duplicates()
        &&& self.possible_targets@.to_set() == targets_on(pieces, self.location_comp)
    }

    /// Selects the piece on `square`, and works out where it may go as the
    /// pieces stand; `None` if the square is empty.
    pub fn new(square: Location, board: &Board) -> (selected: Option<SelectedPiece>)
        requires
            board.wf(),
        ensures
            selected.is_some() <==> board@.contains_key(square),
            selected matches Some(picked) ==> picked.location_comp == square && picked.selects(
                board@,
            ),
    {
        let piece_comp = match resolve_piece(board, &square) {
            Some(piece) => piece,
            None => {
                return None;
            },
        };
        proof {
            board.lemma_occupied_on_board(square);
        }
        let (same_color_pieces, different_color_pieces) = grouped_piece_locations(
            &piece_comp.color,
            board,
        );
        let possible_targets = SelectedPiece::legal_moves(
            &piece_comp,
            &square,
            same_color_pieces.as_slice(),
            different_color_pieces.as_slice(),
        );
        Some(SelectedPiece { piece_comp, location_comp: square, possible_targets })
    }

    /// The squares a sliding piece on `location` may stop on when it leaves in
    /// the direction `(file_step, rank_step)`, nearest first: the free squares up
    /// to the first piece in the way, and that piece's square too if it belongs
    /// to the opponent.
    pub fn cast_ray(
        location: &Location,
        file_step: isize,
        rank_step: isize,
        same_color_pieces: &[Location],
        different_color_pieces: &[Location],
    ) -> (targets: Vec<Location>)
        requires
            location.on_board(),
            -1 <= file_step <= 1,
            -1 <= rank_step <= 1,
            file_step != 0 || rank_step != 0,
        ensures
            targets@.no_duplicates(),
            forall|j: int|
                0 <= j < targets@.len() ==> ray_square(
                    *location,
                    file_step as int,
                    rank_step as int,
                    j + 1,
                ) == Some(#[trigger] targets@[j]),
            forall|to: Location|
                #[trigger] targets@.contains(to) <==> on_ray(
                    *location,
                    file_step as int,
                    rank_step as int,
                    to,
                ) && slide_target(
                    *location,
                    to,
                    same_color_pieces@.to_set(),
                    different_color_pieces@.to_set(),
                ),
    {
        let ghost same = same_color_pieces@.to_set();
        let ghost other = different_color_pieces@.to_set();
        let mut targets: Vec<Location> = Vec::new();
        let mut step: isize = 1;
        let mut open = true;
        while open && step < 8
            invariant
                location.on_board(),
                -1 <= file_step <= 1,
                -1 <= rank_step <= 1,
                file_step != 0 || rank_step != 0,
                same == same_color_pieces@.to_set(),
                other == different_color_pieces@.to_set(),
                1 <= step <= 8,
                open ==> step == targets@.len() + 1,
                forall|j: int|
                    0 <= j < targets@.len() ==> ray_square(
                        *location,
                        file_step as int,
                        rank_step as int,
                        j + 1,
                    ) == Some(#[trigger] targets@[j]),
                forall|j: int| 0 <= j < targets@.len() ==> !same.contains(#[trigger] targets@[j]),
                forall|j: int|
                    0 <= j < targets@.len() - 1 ==> !other.contains(#[trigger] targets@[j]),
                open && targets@.len() >= 1 ==> !other.contains(targets@[targets@.len() - 1]),
                !open ==> ray_stopped(
                    *location,
                    file_step as int,
                    rank_step as int,
                    same,
                    other,
                    targets@.len() as int,
                ),
            decreases
                    (8 - step) + (if open {
                        1int
                    } else {
                        0int
                    }),
        {
            match location.translate(scale(file_step, step), scale(rank_step, step)) {
                None => {
                    open = false;
                },
                Some(square) => {
                    if contains(same_color_pieces, &square) {
                        open = false;
                    } else {
                        targets.push(square);
                        if contains(different_color_pieces, &square) {
                            open = false;
                        } else {
                            step = step + 1;
                        }
                    }
                },
            }
        }
        proof {
            lemma_ray_targets(
                *location,
                file_step as int,
                rank_step as int,
                same,
                other,
                targets@,
            );
        }
        targets
    }

    /// The squares a rook on `location` may move to: along each of the four
    /// directions of its rank and file, the free squares up to the first piece
    /// in the way, and that piece's square too if it belongs to the opponent.
    pub fn rook_moves(
        location: &Location,
        same_color_pieces: &[Location],
        different_color_pieces: &[Location],
    ) -> (targets: Vec<Location>)
        requires
            location.on_board(),
        ensures
            targets@.no_duplicates(),
            forall|to: Location|
                #[trigger] targets@.contains(to) <==> rook_target(
                    *location,
                    to,
                    same_color_pieces@.to_set(),
                    different_color_pieces@.to_set(),
                ),
    {
        let left = Self::cast_ray(location, -1, 0, same_color_pieces, different_color_pieces);
        let right = Self::cast_ray(location, 1, 0, same_color_pieces, different_color_pieces);
        let down = Self::cast_ray(location, 0, -1, same_color_pieces, different_color_pieces);
        let up = Self::cast_ray(location, 0, 1, same_color_pieces, different_color_pieces);
        let files = join(left, right);
        let ranks = join(down, up);
        join(files, ranks)
    }

    /// The squares a bishop on `location` may move to: along each of the four
    /// diagonal directions, the free squares up to the first piece in the way,
    /// and that piece's square too if it belongs to the opponent.
    pub fn bishop_moves(
        location: &Location,
        same_color_pieces: &[Location],
        different_color_pieces: &[Location],
    ) -> (targets: Vec<Location>)
        requires
            location.on_board(),
        ensures
            targets@.no_duplicates(),
            forall|to: Location|
                #[trigger] targets@.contains(to) <==> bishop_target(
                    *location,
                    to,
                    same_color_pieces@.to_set(),
                    different_color_pieces@.to_set(),
                ),
    {
        let up_right = Self::cast_ray(location, 1, 1, same_color_pieces, different_color_pieces);
        let down_right = Self::cast_ray(location, 1, -1, same_color_pieces, different_color_pieces);
        let up_left = Self::cast_ray(location, -1, 1, same_color_pieces, different_color_pieces);
        let down_left = Self::cast_ray(location, -1, -1, same_color_pieces, different_color_pieces);
        let right = join(up_right, down_right);
        let left = join(up_left, down_left);
        join(right, left)
    }

    /// The neighbours of `location` that are on the board.
    pub fn king_moves(location: &Location) -> (targets: Vec<Location>)
        ensures
            targets@.no_duplicates(),
            forall|to: Location| #[trigger] targets@.contains(to) <==> king_target(*location, to),
            1 <= location.x <= 6 && 1 <= location.y <= 6 ==> targets@.len() == 8,
    {
        let units: Vec<isize> = vec![-1, 0, 1];
        let ghost pairs = ordered_pairs(units@);
        let mut offsets = permutations(units, 2);
        proof {
            assert(units@.len() == 3);
            assert(pairs.len() == 6) by (nonlinear_arith)
                requires
                    pairs.len() == (3 * (3 - 1)) as nat,
            ;
            assert(offset_views(offsets@) =~= seq![
                seq![-1isize, 0isize],
                seq![-1isize, 1isize],
                seq![0isize, -1isize],
                seq![0isize, 1isize],
                seq![1isize, -1isize],
                seq![1isize, 0isize],
            ]);
        }
        offsets.push(vec![-1, -1]);
        offsets.push(vec![1, 1]);
        proof {
            let steps = offset_views(offsets@);
            assert(steps =~= seq![
                seq![-1isize, 0isize],
                seq![-1isize, 1isize],
                seq![0isize, -1isize],
                seq![0isize, 1isize],
                seq![1isize, -1isize],
                seq![1isize, 0isize],
                seq![-1isize, -1isize],
                seq![1isize, 1isize],
            ]);
            lemma_offsets_reach(*location, steps);
            lemma_translated(*location, steps);
        }
        translate_from_offsets(location, offsets)
    }

    /// The squares a knight's jump away from `location` that are on the board.
    pub fn knight_moves(location: &Location) -> (targets: Vec<Location>)
        ensures
            targets@.no_duplicates(),
            forall|to: Location| #[trigger] targets@.contains(to) <==> knight_target(*location, to),
            2 <= location.x <= 5 && 2 <= location.y <= 5 ==> targets@.len() == 8,
    {
        let offsets = vec![
            vec![-2, -1],
            vec![-2, 1],
            vec![-1, -2],
            vec![-1, 2],
            vec![1, -2],
            vec![1, 2],
            vec![2, -1],
            vec![2, 1],
        ];
        proof {
            let steps = offset_views(offsets@);
            assert(steps =~= seq![
                seq![-2isize, -1isize],
                seq![-2isize, 1isize],
                seq![-1isize, -2isize],
                seq![-1isize, 2isize],
                seq![1isize, -2isize],
                seq![1isize, 2isize],
                seq![2isize, -1isize],
                seq![2isize, 1isize],
            ]);
            lemma_offsets_reach(*location, steps);
            lemma_translated(*location, steps);
        }
        translate_from_offsets(location, offsets)
    }

    /// The squares a pawn on `location` is offered, given the squares that the
    /// opponent holds.
    ///
    /// A pawn whose next rank is off the board is offered nothing. Otherwise it
    /// is offered the square straight ahead unless an opponent stands there, the
    /// square two ranks ahead as long as it has not moved and that square is on
    /// the board, and each diagonal neighbour ahead that an opponent holds. The
    /// two-square advance does not look at what stands on the way or at its end.
    pub fn pawn_moves(
        location: &Location,
        piece: &Piece,
        different_color_pieces: &[Location],
    ) -> (targets: Vec<Location>)
        requires
            location.on_board(),
        ensures
            targets@.no_duplicates(),
            forall|to: Location|
                #[trigger] targets@.contains(to) <==> pawn_target(
                    *piece,
                    *location,
                    to,
                    different_color_pieces@.to_set(),
                ),
    {
        let y_modifier: isize = match piece.color {
            PieceColor::White => 1,
            PieceColor::Black => -1,
        };
        let mut squares: Vec<Location> = Vec::new();
        match location.translate(0, y_modifier) {
            Some(ahead) => {
                // a pawn cannot capture in the same way it moves
                if !contains(different_color_pieces, &ahead) {
                    offer(&mut squares, ahead);
                }
                // a pawn can move two squares on its first move
                if !piece.has_moved {
                    match location.translate(0, 2 * y_modifier) {
                        Some(two_ahead) => {
                            offer(&mut squares, two_ahead);
                        },
                        None => {},
                    }
                }
                // the squares diagonally ahead, for capturing
                match location.translate(1, y_modifier) {
                    Some(right) => {
                        if contains(different_color_pieces, &right) {
                            offer(&mut squares, right);
                        }
                    },
                    None => {},
                }
                match location.translate(-1, y_modifier) {
                    Some(left) => {
                        if contains(different_color_pieces, &left) {
                            offer(&mut squares, left);
                        }
                    },
                    None => {},
                }
            },
            None => {},
        }
        squares
    }

    /// All squares that `piece` on `location` may be moved to, in no particular
    /// order and each once: where its kind of piece can go, without the squares
    /// that its own side holds. Whether the move would leave the mover's king
    /// attacked is not looked at.
    pub fn legal_moves(
        piece: &Piece,
        location: &Location,
        same_color_pieces: &[Location],
        different_color_pieces: &[Location],
    ) -> (targets: Vec<Location>)
        requires
            location.on_board(),
        ensures
            targets@.no_duplicates(),
            targets@.to_set() == candidate_targets(
                *piece,
                *location,
                same_color_pieces@.to_set(),
                different_color_pieces@.to_set(),
            ),
            forall|i: int| 0 <= i < targets@.len() ==> (#[trigger] targets@[i]).on_board(),
            forall|i: int|
                0 <= i < targets@.len() ==> !same_color_pieces@.contains(#[trigger] targets@[i]),
    {
        let ghost same = same_color_pieces@.to_set();
        let ghost other = different_color_pieces@.to_set();
        let reached = match piece.kind {
            PieceType::King => Self::king_moves(location),
            PieceType::Queen => {
                let straight = Self::rook_moves(
                    location,
                    same_color_pieces,
                    different_color_pieces,
                );
                let diagonal = Self::bishop_moves(
                    location,
                    same_color_pieces,
                    different_color_pieces,
                );
                join(straight, diagonal)
            },
            PieceType::Rook => Self::rook_moves(location, same_color_pieces, different_color_pieces),
            PieceType::Bishop => Self::bishop_moves(
                location,
                same_color_pieces,
                different_color_pieces,
            ),
            PieceType::Knight => Self::knight_moves(location),
            PieceType::Pawn => Self::pawn_moves(location, piece, different_color_pieces),
        };
        proof {
            assert forall|to: Location| #[trigger]
                reached@.contains(to) <==> to.on_board() && reaches(
                    *piece,
                    *location,
                    same,
                    other,
                    to,
                ) by {
                match piece.kind {
                    PieceType::King => {
                        assert(reached@.contains(to) <==> king_target(*location, to));
                    },
                    PieceType::Queen => {
                        assert(reached@.contains(to) <==> queen_target(*location, to, same, other));
                    },
                    PieceType::Rook => {
                        assert(reached@.contains(to) <==> rook_target(*location, to, same, other));
                    },
                    PieceType::Bishop => {
                        assert(reached@.contains(to) <==> bishop_target(
                            *location,
                            to,
                            same,
                            other,
                        ));
                    },
                    PieceType::Knight => {
                        assert(reached@.contains(to) <==> knight_target(*location, to));
                    },
                    PieceType::Pawn => {
                        assert(reached@.contains(to) <==> pawn_target(
                            *piece,
                            *location,
                            to,
                            other,
                        ));
                    },
                }
            }
        }
        let mut targets: Vec<Location> = Vec::new();
        let mut i: usize = 0;
        while i < reached.len()
            invariant
                i <= reached@.len(),
                reached@.no_duplicates(),
                targets@.no_duplicates(),
                forall|to: Location|
                    #![trigger targets@.contains(to)]
                    #![trigger reached@.take(i as int).contains(to)]
                    targets@.contains(to) <==> reached@.take(i as int).contains(to)
                        && !same_color_pieces@.contains(to),
            decreases reached@.len() - i,
        {
            let square = reached[i];
            proof {
                lemma_keep_step(reached@, same_color_pieces@, targets@, i as int);
            }
            if !contains(same_color_pieces, &square) {
                targets.push(square);
            }
            i = i + 1;
        }
        proof {
            assert(reached@.take(i as int) =~= reached@);
            assert forall|to: Location|
                targets@.to_set().contains(to) <==> candidate_targets(
                    *piece,
                    *location,
                    same,
                    other,
                ).contains(to) by {
                assert(targets@.contains(to) <==> reached@.contains(to)
                    && !same_color_pieces@.contains(to));
            }
            assert(targets@.to_set() =~= candidate_targets(*piece, *location, same, other));
            assert forall|j: int| 0 <= j < targets@.len() implies (#[trigger] targets@[j]).on_board()
                && !same_color_pieces@.contains(targets@[j]) by {
                assert(targets@.contains(targets@[j]));
            }
        }
        targets
    }
}

} // verus!
