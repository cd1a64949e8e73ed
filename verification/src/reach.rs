//! What the destinations of a sliding piece are, square by square: a square
//! is a destination exactly if the way to it is clear and no piece of the
//! mover's colour stands on it. From this follow the rules of blocking and
//! capture.

use vstd::prelude::*;
use crate::board::{Board, empty_square, occupant_at};
use crate::geometry::{
    Direction, Occupant, in_bounds, lemma_square_at_injective, lemma_square_at_step,
    lemma_squares_of_injective, square_at, squares_of,
};
use crate::sliding::{
    bishop_moves, ray, rook_moves, sliding_moves, squares_ahead, walk,
};

verus! {

/// Whether the squares at distances 1 to `k - 1` from `(row, col)` in
/// `direction` all lie on the board and are empty.
pub open spec fn path_clear(board: Board, row: int, col: int, direction: Direction, k: int) -> bool {
    forall|j: int| 1 <= j < k ==> empty_square(board, #[trigger] square_at(row, col, direction, j))
}

/// Whether a sliding piece of colour `is_white` on `(row, col)` can move `k`
/// steps in `direction`: the way there is clear, and the square lies on the
/// board and holds no piece of the mover's colour.
pub open spec fn reaches(
    board: Board,
    row: int,
    col: int,
    direction: Direction,
    is_white: bool,
    k: int,
) -> bool {
    let target = square_at(row, col, direction, k);
    &&& k >= 1
    &&& path_clear(board, row, col, direction, k)
    &&& in_bounds(target.0, target.1)
    &&& occupant_at(board, target.0, target.1, is_white) != Occupant::Own
}

/// A walk that starts `m` steps from `(row, col)`, at the end of a clear
/// path, records the squares at distances `m`, `m + 1`, ... as long as they
/// can be reached.
proof fn lemma_walk_contents(
    board: Board,
    row: int,
    col: int,
    direction: Direction,
    is_white: bool,
    m: int,
)
    requires
        m >= 1,
        path_clear(board, row, col, direction, m),
    ensures
        ({
            let start = square_at(row, col, direction, m);
            let recorded = walk(board, start.0, start.1, direction, is_white);
            &&& forall|i: int|
                0 <= i < recorded.len() ==> {
                    &&& #[trigger] recorded[i] == square_at(row, col, direction, m + i)
                    &&& reaches(board, row, col, direction, is_white, m + i)
                }
            &&& forall|k: int|
                k >= m && #[trigger] reaches(board, row, col, direction, is_white, k)
                    ==> k - m < recorded.len()
        }),
    decreases
        squares_ahead(
            square_at(row, col, direction, m).0,
            square_at(row, col, direction, m).1,
            direction,
        ),
{
    let start = square_at(row, col, direction, m);
    let next = square_at(row, col, direction, m + 1);
    let recorded = walk(board, start.0, start.1, direction, is_white);
    lemma_square_at_step(start.0, start.1, direction, 1);
    if empty_square(board, start) {
        let rest = walk(board, next.0, next.1, direction, is_white);
        lemma_walk_contents(board, row, col, direction, is_white, m + 1);
        assert forall|i: int| 0 <= i < recorded.len() implies {
            &&& #[trigger] recorded[i] == square_at(row, col, direction, m + i)
            &&& reaches(board, row, col, direction, is_white, m + i)
        } by {
            if i > 0 {
                assert(recorded[i] == rest[i - 1]);
            }
        }
    }
}

/// What a ray holds: its `i`-th square is the one `i + 1` steps away, which
/// the piece can reach, and every distance that the piece can reach is in it.
pub proof fn lemma_ray_contents(
    board: Board,
    row: int,
    col: int,
    direction: Direction,
    is_white: bool,
)
    ensures
        ({
            let squares = ray(board, row, col, direction, is_white);
            &&& forall|i: int|
                0 <= i < squares.len() ==> {
                    &&& #[trigger] squares[i] == square_at(row, col, direction, i + 1)
                    &&& reaches(board, row, col, direction, is_white, i + 1)
                }
            &&& forall|k: int| #[trigger]
                reaches(board, row, col, direction, is_white, k) ==> 1 <= k <= squares.len()
        }),
{
    let squares = ray(board, row, col, direction, is_white);
    let start = square_at(row, col, direction, 1);
    lemma_square_at_step(row, col, direction, 1);
    lemma_walk_contents(board, row, col, direction, is_white, 1);
    assert(squares == walk(board, start.0, start.1, direction, is_white));
    assert forall|i: int| 0 <= i < squares.len() implies {
        &&& #[trigger] squares[i] == square_at(row, col, direction, i + 1)
        &&& reaches(board, row, col, direction, is_white, i + 1)
    } by {
        assert(squares[i] == square_at(row, col, direction, 1 + i));
    }
}

/// A square is a destination along `direction` exactly if it lies some
/// number of steps away that the piece can reach.
pub proof fn lemma_ray_contains(
    board: Board,
    row: int,
    col: int,
    direction: Direction,
    is_white: bool,
    square: (int, int),
)
    ensures
        ray(board, row, col, direction, is_white).contains(square) <==> exists|k: int|
            square == square_at(row, col, direction, k)
                && #[trigger] reaches(board, row, col, direction, is_white, k),
{
    let squares = ray(board, row, col, direction, is_white);
    lemma_ray_contents(board, row, col, direction, is_white);
    if exists|k: int|
        square == square_at(row, col, direction, k)
            && #[trigger] reaches(board, row, col, direction, is_white, k) {
        let k = choose|k: int|
            square == square_at(row, col, direction, k)
                && #[trigger] reaches(board, row, col, direction, is_white, k);
        assert(squares[k - 1] == square);
    }
}

/// A square is a destination of a sliding piece exactly if it is a
/// destination along one of the piece's directions.
pub proof fn lemma_sliding_moves_contains(
    board: Board,
    row: int,
    col: int,
    directions: Seq<Direction>,
    is_white: bool,
    square: (int, int),
)
    ensures
        sliding_moves(board, row, col, directions, is_white).contains(square) <==> exists|i: int|
            0 <= i < directions.len()
                && #[trigger] ray(board, row, col, directions[i], is_white).contains(square),
    decreases directions.len(),
{
    let all = sliding_moves(board, row, col, directions, is_white);
    if directions.len() > 0 {
        let front = directions.drop_last();
        let last = directions.len() - 1;
        let head = sliding_moves(board, row, col, front, is_white);
        let tail = ray(board, row, col, directions[last], is_white);
        lemma_sliding_moves_contains(board, row, col, front, is_white, square);
        if all.contains(square) {
            let n = choose|n: int| 0 <= n < all.len() && all[n] == square;
            if n >= head.len() {
                assert(ray(board, row, col, directions[last], is_white).contains(square));
            }
        }
        if exists|i: int|
            0 <= i < directions.len()
                && #[trigger] ray(board, row, col, directions[i], is_white).contains(square) {
            let i = choose|i: int|
                0 <= i < directions.len()
                    && #[trigger] ray(board, row, col, directions[i], is_white).contains(square);
            if i < front.len() {
                assert(ray(board, row, col, front[i], is_white).contains(square));
                let n = choose|n: int| 0 <= n < head.len() && head[n] == square;
                assert(all[n] == square);
            } else {
                let n = choose|n: int| 0 <= n < tail.len() && tail[n] == square;
                assert(all[head.len() + n] == square);
            }
        }
    }
}

/// The square `k` steps away in `direction` is a destination of a sliding
/// piece exactly if `direction` is one of the piece's directions and the
/// piece can reach the square along it: no other direction leads there.
pub proof fn lemma_destination_iff_reached(
    board: Board,
    row: int,
    col: int,
    directions: Seq<Direction>,
    is_white: bool,
    direction: Direction,
    k: int,
)
    requires
        k >= 1,
    ensures
        sliding_moves(board, row, col, directions, is_white).contains(
            square_at(row, col, direction, k),
        ) <==> directions.contains(direction) && reaches(board, row, col, direction, is_white, k),
{
    let square = square_at(row, col, direction, k);
    lemma_sliding_moves_contains(board, row, col, directions, is_white, square);
    if sliding_moves(board, row, col, directions, is_white).contains(square) {
        let i = choose|i: int|
            0 <= i < directions.len()
                && #[trigger] ray(board, row, col, directions[i], is_white).contains(square);
        lemma_ray_contains(board, row, col, directions[i], is_white, square);
        let n = choose|n: int|
            square == square_at(row, col, directions[i], n)
                && #[trigger] reaches(board, row, col, directions[i], is_white, n);
        lemma_square_at_injective(row, col, direction, k, directions[i], n);
    }
    if directions.contains(direction) && reaches(board, row, col, direction, is_white, k) {
        let i = choose|i: int| 0 <= i < directions.len() && directions[i] == direction;
        lemma_ray_contains(board, row, col, directions[i], is_white, square);
    }
}

/// Once a sliding piece captures on a square, it goes no further: where the
/// square `k` steps away in some direction is a destination and holds an
/// opponent's piece, no square beyond it in that direction is a destination.
pub proof fn lemma_nothing_beyond_capture(
    board: Board,
    row: int,
    col: int,
    directions: Seq<Direction>,
    is_white: bool,
    direction: Direction,
    k: int,
    j: int,
)
    requires
        1 <= k < j,
        sliding_moves(board, row, col, directions, is_white).contains(
            square_at(row, col, direction, k),
        ),
        occupant_at(
            board,
            square_at(row, col, direction, k).0,
            square_at(row, col, direction, k).1,
            is_white,
        ) == Occupant::Opponent,
    ensures
        !sliding_moves(board, row, col, directions, is_white).contains(
            square_at(row, col, direction, j),
        ),
{
    lemma_destination_iff_reached(board, row, col, directions, is_white, direction, j);
}

/// A sliding piece never lands on a piece of its own colour.
pub proof fn lemma_no_own_square_among_moves(
    board: Board,
    row: int,
    col: int,
    directions: Seq<Direction>,
    is_white: bool,
)
    ensures
        forall|i: int|
            #![trigger sliding_moves(board, row, col, directions, is_white)[i]]
            0 <= i < sliding_moves(board, row, col, directions, is_white).len() ==> {
                let square = sliding_moves(board, row, col, directions, is_white)[i];
                occupant_at(board, square.0, square.1, is_white) != Occupant::Own
            },
{
    let moves = sliding_moves(board, row, col, directions, is_white);
    assert forall|i: int| 0 <= i < moves.len() implies {
        let square = #[trigger] moves[i];
        occupant_at(board, square.0, square.1, is_white) != Occupant::Own
    } by {
        let square = moves[i];
        lemma_sliding_moves_contains(board, row, col, directions, is_white, square);
        let d = choose|d: int|
            0 <= d < directions.len()
                && #[trigger] ray(board, row, col, directions[d], is_white).contains(square);
        lemma_ray_contains(board, row, col, directions[d], is_white, square);
    }
}

/// A piece of the mover's colour blocks the way: where the square `k` steps
/// away in some direction holds such a piece, neither that square nor any
/// square beyond it in that direction is a destination.
pub proof fn lemma_nothing_from_own_piece_on(
    board: Board,
    row: int,
    col: int,
    directions: Seq<Direction>,
    is_white: bool,
    direction: Direction,
    k: int,
    j: int,
)
    requires
        1 <= k <= j,
        in_bounds(square_at(row, col, direction, k).0, square_at(row, col, direction, k).1),
        occupant_at(
            board,
            square_at(row, col, direction, k).0,
            square_at(row, col, direction, k).1,
            is_white,
        ) == Occupant::Own,
    ensures
        !sliding_moves(board, row, col, directions, is_white).contains(
            square_at(row, col, direction, j),
        ),
{
    lemma_destination_iff_reached(board, row, col, directions, is_white, direction, j);
}

/// The destinations for four directions are the four rays in order.
proof fn lemma_four_rays(
    board: Board,
    row: int,
    col: int,
    d0: Direction,
    d1: Direction,
    d2: Direction,
    d3: Direction,
    is_white: bool,
)
    ensures
        sliding_moves(board, row, col, seq![d0, d1, d2, d3], is_white) == ray(
            board,
            row,
            col,
            d0,
            is_white,
        ) + ray(board, row, col, d1, is_white) + ray(board, row, col, d2, is_white)
            + ray(board, row, col, d3, is_white),
{
    let four = seq![d0, d1, d2, d3];
    let three = seq![d0, d1, d2];
    let two = seq![d0, d1];
    let one = seq![d0];
    let none = Seq::<Direction>::empty();
    assert(four.drop_last() == three);
    assert(three.drop_last() == two);
    assert(two.drop_last() == one);
    assert(one.drop_last() == none);
    assert(sliding_moves(board, row, col, none, is_white) == Seq::<(int, int)>::empty());
    assert(sliding_moves(board, row, col, one, is_white) == ray(board, row, col, d0, is_white));
    assert(sliding_moves(board, row, col, two, is_white) == ray(board, row, col, d0, is_white)
        + ray(board, row, col, d1, is_white));
    assert(sliding_moves(board, row, col, three, is_white) == ray(board, row, col, d0, is_white)
        + ray(board, row, col, d1, is_white) + ray(board, row, col, d2, is_white));
}

/// The rook's destinations are its rays upwards, downwards, to the left and
/// to the right, in that order.
pub proof fn lemma_rook_moves_by_ray(board: Board, row: int, col: int, is_white: bool)
    ensures
        rook_moves(board, row, col, is_white) == ray(board, row, col, Direction::Up, is_white)
            + ray(board, row, col, Direction::Down, is_white)
            + ray(board, row, col, Direction::Left, is_white)
            + ray(board, row, col, Direction::Right, is_white),
{
    lemma_four_rays(
        board,
        row,
        col,
        Direction::Up,
        Direction::Down,
        Direction::Left,
        Direction::Right,
        is_white,
    );
}

/// The bishop's destinations are its rays up-left, up-right, down-left and
/// down-right, in that order.
pub proof fn lemma_bishop_moves_by_ray(board: Board, row: int, col: int, is_white: bool)
    ensures
        bishop_moves(board, row, col, is_white) == ray(
            board,
            row,
            col,
            Direction::UpLeft,
            is_white,
        ) + ray(board, row, col, Direction::UpRight, is_white)
            + ray(board, row, col, Direction::DownLeft, is_white)
            + ray(board, row, col, Direction::DownRight, is_white),
{
    lemma_four_rays(
        board,
        row,
        col,
        Direction::UpLeft,
        Direction::UpRight,
        Direction::DownLeft,
        Direction::DownRight,
        is_white,
    );
}

/// Two move lists that both hold the destinations of a sliding piece for one
/// board, one square, one list of directions and one colour are the same
/// list: so are the results of two calls of the rook's generator, and of the
/// bishop's.
pub proof fn lemma_sliding_moves_deterministic(
    board: Board,
    row: int,
    col: int,
    directions: Seq<Direction>,
    is_white: bool,
    first: Seq<(usize, usize)>,
    second: Seq<(usize, usize)>,
)
    requires
        squares_of(first) == sliding_moves(board, row, col, directions, is_white),
        squares_of(second) == sliding_moves(board, row, col, directions, is_white),
    ensures
        first == second,
{
    lemma_squares_of_injective(first, second);
}

} // verus!
