//! Scanning the grid for the cells that a set of balls occupies.
//!
//! How strongly the balls act on a cell is a matter of floating-point
//! arithmetic, which is left to an evaluator that the caller hands in. What
//! can be decided on integers is decided here: a cell that a ball is centred
//! on is occupied whatever the evaluator would say, and where there is no
//! ball there is no field. The evaluator is asked about every other cell of
//! the grid, once, in reading order.

use crate::ball::{lemma_dist_sqr_zero, Coord, MetaBall};
use crate::sampling::{first_inverted, sample_balls, sampled_balls, BlobError};
use vstd::prelude::*;

verus! {

/// The lattice point that a pair `(x, y)` names.
pub open spec fn cell_of(pair: (i32, i32)) -> Coord {
    Coord { x: pair.0, y: pair.1 }
}

/// `cell` lies on the grid of `size` by `size` cells.
pub open spec fn in_grid(size: i32, cell: Coord) -> bool {
    0 <= cell.x < size && 0 <= cell.y < size
}

/// Reading order: `a` is not in a later row than `b`, and where the two
/// share a row, `a` is in an earlier column.
pub open spec fn scanned_before(a: Coord, b: Coord) -> bool {
    a.y <= b.y && (a.y == b.y ==> a.x < b.x)
}

/// Some ball of `balls` is centred on `cell`.
pub open spec fn on_centre(balls: Seq<MetaBall>, cell: Coord) -> bool {
    exists|i: int| 0 <= i < balls.len() && (#[trigger] balls[i]).center == cell
}

/// `answer` is something the evaluator may return when asked whether the
/// field of `balls` exceeds the threshold at `cell`.
pub open spec fn may_answer<F: Fn(&Vec<MetaBall>, Coord) -> bool>(
    exceeds: F,
    balls: Seq<MetaBall>,
    cell: Coord,
    answer: bool,
) -> bool {
    exists|given: Vec<MetaBall>| given@ == balls && #[trigger] call_ensures(exceeds, (&given, cell), answer)
}

/// The evaluator never gives both answers for one cell of the field of
/// `balls`.
pub open spec fn decided<F: Fn(&Vec<MetaBall>, Coord) -> bool>(exceeds: F, balls: Seq<MetaBall>) -> bool {
    forall|cell: Coord|
        !(#[trigger] may_answer(exceeds, balls, cell, true) && may_answer(exceeds, balls, cell, false))
}

/// A scan may report `cell` as occupied: a ball is centred on it, or there
/// are balls and the evaluator may say that their field exceeds the
/// threshold there.
pub open spec fn may_be_occupied<F: Fn(&Vec<MetaBall>, Coord) -> bool>(
    exceeds: F,
    balls: Seq<MetaBall>,
    cell: Coord,
) -> bool {
    on_centre(balls, cell) || (balls.len() > 0 && may_answer(exceeds, balls, cell, true))
}

/// A scan may pass over `cell`: no ball is centred on it, and there are no
/// balls at all or the evaluator may say that their field stays below the
/// threshold there.
pub open spec fn may_be_free<F: Fn(&Vec<MetaBall>, Coord) -> bool>(
    exceeds: F,
    balls: Seq<MetaBall>,
    cell: Coord,
) -> bool {
    !on_centre(balls, cell) && (balls.len() == 0 || may_answer(exceeds, balls, cell, false))
}

/// `cells` is in reading order, row by row from the top and within a row
/// from the left, and names no cell twice.
pub open spec fn in_reading_order(cells: Seq<(i32, i32)>) -> bool {
    forall|i: int, j: int|
        0 <= i < j < cells.len() ==> scanned_before(cell_of(#[trigger] cells[i]), cell_of(#[trigger] cells[j]))
}

/// `cells` accounts for every cell of the grid that comes before `next` in
/// reading order, and for no other: the cells it names are occupied, the
/// cells it leaves out are free, and it is in reading order.
pub open spec fn scanned_up_to<F: Fn(&Vec<MetaBall>, Coord) -> bool>(
    cells: Seq<(i32, i32)>,
    size: i32,
    balls: Seq<MetaBall>,
    exceeds: F,
    next: Coord,
) -> bool {
    &&& forall|i: int|
        0 <= i < cells.len() ==> {
            &&& in_grid(size, cell_of(#[trigger] cells[i]))
            &&& scanned_before(cell_of(cells[i]), next)
            &&& may_be_occupied(exceeds, balls, cell_of(cells[i]))
        }
    &&& in_reading_order(cells)
    &&& forall|cell: Coord|
        in_grid(size, cell) && scanned_before(cell, next) && !cells.contains((cell.x, cell.y))
            ==> #[trigger] may_be_free(exceeds, balls, cell)
}

/// `cells` is a scan of the whole grid: it names, in reading order and once
/// each, cells of the grid that are occupied, and every cell of the grid
/// that it leaves out is free.
pub open spec fn is_scan<F: Fn(&Vec<MetaBall>, Coord) -> bool>(
    cells: Seq<(i32, i32)>,
    size: i32,
    balls: Seq<MetaBall>,
    exceeds: F,
) -> bool {
    &&& forall|i: int|
        0 <= i < cells.len() ==> {
            &&& in_grid(size, cell_of(#[trigger] cells[i]))
            &&& may_be_occupied(exceeds, balls, cell_of(cells[i]))
        }
    &&& in_reading_order(cells)
    &&& forall|cell: Coord|
        in_grid(size, cell) && !cells.contains((cell.x, cell.y)) ==> #[trigger] may_be_free(
            exceeds,
            balls,
            cell,
        )
}

/// `r` is what `blob` owes for these arguments: the error that names the
/// first range with its ends out of order, or else a scan of the grid for
/// the balls that the seed and the ranges stand for.
pub open spec fn is_blob<F: Fn(&Vec<MetaBall>, Coord) -> bool>(
    r: Result<Vec<(i32, i32)>, BlobError>,
    seed: i64,
    size: i32,
    num_balls: (i32, i32),
    inner_range: (i32, i32),
    ball_size: (i32, i32),
    exceeds: F,
) -> bool {
    match first_inverted(num_balls, inner_range, ball_size) {
        Some(which) => r == Err::<Vec<(i32, i32)>, BlobError>(BlobError::InvalidRange(which)),
        None => r is Ok && is_scan(
            r.unwrap()@,
            size,
            sampled_balls(seed, num_balls, inner_range, ball_size),
            exceeds,
        ),
    }
}

/// Tells whether a ball of `balls` is centred on `cell`, that is, whether
/// some ball is at squared distance zero from it.
pub fn saturates(balls: &Vec<MetaBall>, cell: Coord) -> (hit: bool)
    ensures
        hit == on_centre(balls@, cell),
{
    let mut i: usize = 0;
    while i < balls.len()
        invariant
            i <= balls.len(),
            forall|j: int| 0 <= j < i ==> (#[trigger] balls@[j]).center != cell,
        decreases balls.len() - i,
    {
        proof {
            lemma_dist_sqr_zero(balls@[i as int].center, cell);
        }
        if balls[i].center.dist_sqr(&cell) == 0 {
            return true;
        }
        i = i + 1;
    }
    false
}

/// Tells whether `cell` is occupied: by a ball centred on it, or else, if
/// there are balls, by the evaluator's word.
pub fn occupied<F: Fn(&Vec<MetaBall>, Coord) -> bool>(balls: &Vec<MetaBall>, cell: Coord, exceeds: &F) -> (yes:
    bool)
    requires
        call_requires(*exceeds, (balls, cell)),
    ensures
        yes ==> may_be_occupied(*exceeds, balls@, cell),
        !yes ==> may_be_free(*exceeds, balls@, cell),
{
    if balls.len() == 0 {
        false
    } else if saturates(balls, cell) {
        true
    } else {
        exceeds(balls, cell)
    }
}

/// Scans the grid of `size` by `size` cells, rows from the top and each row
/// from the left, and returns the occupied cells as `(x, y)` pairs in the
/// order in which they were met. A `size` below one gives an empty grid.
pub fn scan_grid<F: Fn(&Vec<MetaBall>, Coord) -> bool>(size: i32, balls: &Vec<MetaBall>, exceeds: F) -> (cells:
    Vec<(i32, i32)>)
    requires
        forall|cell: Coord| in_grid(size, cell) ==> #[trigger] call_requires(exceeds, (balls, cell)),
    ensures
        is_scan(cells@, size, balls@, exceeds),
{
    let mut cells: Vec<(i32, i32)> = Vec::new();
    let mut y: i32 = 0;
    while y < size
        invariant
            0 <= y,
            y <= size || y == 0,
            forall|cell: Coord| in_grid(size, cell) ==> #[trigger] call_requires(exceeds, (balls, cell)),
            scanned_up_to(cells@, size, balls@, exceeds, Coord { x: 0, y }),
        decreases size - y,
    {
        let mut x: i32 = 0;
        while x < size
            invariant
                0 <= x <= size,
                0 <= y < size,
                forall|cell: Coord| in_grid(size, cell) ==> #[trigger] call_requires(exceeds, (balls, cell)),
                scanned_up_to(cells@, size, balls@, exceeds, Coord { x, y }),
            decreases size - x,
        {
            let cell: Coord = Coord { x, y };
            let ghost before: Seq<(i32, i32)> = cells@;
            if occupied(balls, cell, &exceeds) {
                cells.push((x, y));
                proof {
                    // a cell before the next one that is still not named is not the
                    // cell just named, and was not named before either
                    assert forall|other: Coord|
                        in_grid(size, other) && scanned_before(other, Coord { x: (x + 1) as i32, y })
                            && !cells@.contains((other.x, other.y)) implies #[trigger] may_be_free(
                        exceeds,
                        balls@,
                        other,
                    ) by {
                        assert(cells@[before.len() as int] == (x, y));
                        if before.contains((other.x, other.y)) {
                            let i: int = choose|i: int| 0 <= i < before.len() && before[i] == (other.x, other.y);
                            assert(cells@[i] == (other.x, other.y));
                        }
                    }
                }
            }
            x = x + 1;
        }
        y = y + 1;
    }
    cells
}

/// Generates the field that `seed` and the three ranges stand for, on a grid
/// of `size` by `size` cells.
///
/// A range with its ends out of order is refused before anything is drawn.
/// Otherwise the balls are those of `sample_balls`, and the result is the
/// scan of the grid for them: the occupied cells as `(x, y)` pairs, in
/// reading order. `exceeds` is asked whether the field of the balls is
/// above the threshold at a cell; it is not asked about a cell that a ball
/// is centred on, nor when there are no balls.
pub fn blob<F: Fn(&Vec<MetaBall>, Coord) -> bool>(
    seed: i64,
    size: i32,
    num_balls: (i32, i32),
    inner_range: (i32, i32),
    ball_size: (i32, i32),
    exceeds: F,
) -> (r: Result<Vec<(i32, i32)>, BlobError>)
    requires
        forall|balls: Vec<MetaBall>, cell: Coord|
            in_grid(size, cell) ==> #[trigger] call_requires(exceeds, (&balls, cell)),
    ensures
        is_blob(r, seed, size, num_balls, inner_range, ball_size, exceeds),
        first_inverted(num_balls, inner_range, ball_size) is None && num_balls.1 <= 0 ==> r.unwrap()@.len()
            == 0,
{
    match sample_balls(seed, num_balls, inner_range, ball_size) {
        Err(e) => Err(e),
        Ok(balls) => {
            let cells: Vec<(i32, i32)> = scan_grid(size, &balls, exceeds);
            proof {
                if balls@.len() == 0 {
                    lemma_no_balls_no_cells(cells@, size, balls@, exceeds);
                }
            }
            Ok(cells)
        },
    }
}

/// Two sequences in reading order that name the same cells are the same
/// sequence.
proof fn lemma_reading_order_unique(a: Seq<(i32, i32)>, b: Seq<(i32, i32)>)
    requires
        in_reading_order(a),
        in_reading_order(b),
        forall|pair: (i32, i32)| a.contains(pair) <==> b.contains(pair),
    ensures
        a == b,
    decreases a.len(),
{
    if a.len() == 0 {
        if b.len() > 0 {
            assert(b.contains(b[0]));
        }
        assert(a =~= b);
    } else {
        let last_a: (i32, i32) = a.last();
        assert(a.contains(last_a));
        assert(b.contains(last_a));
        let last_b: (i32, i32) = b.last();
        assert(b.contains(last_b));
        assert(a.contains(last_b));
        let i: int = choose|i: int| 0 <= i < b.len() && b[i] == last_a;
        let j: int = choose|j: int| 0 <= j < a.len() && a[j] == last_b;
        assert(last_a == last_b) by {
            if i < b.len() - 1 && j < a.len() - 1 {
                assert(scanned_before(cell_of(b[i]), cell_of(b[b.len() - 1])));
                assert(scanned_before(cell_of(a[j]), cell_of(a[a.len() - 1])));
            }
        }
        let rest_a: Seq<(i32, i32)> = a.drop_last();
        let rest_b: Seq<(i32, i32)> = b.drop_last();
        assert forall|pair: (i32, i32)| rest_a.contains(pair) <==> rest_b.contains(pair) by {
            if rest_a.contains(pair) {
                let k: int = choose|k: int| 0 <= k < rest_a.len() && rest_a[k] == pair;
                assert(scanned_before(cell_of(a[k]), cell_of(a[a.len() - 1])));
                assert(a.contains(pair));
                let m: int = choose|m: int| 0 <= m < b.len() && b[m] == pair;
                assert(rest_b[m] == pair);
            }
            if rest_b.contains(pair) {
                let k: int = choose|k: int| 0 <= k < rest_b.len() && rest_b[k] == pair;
                assert(scanned_before(cell_of(b[k]), cell_of(b[b.len() - 1])));
                assert(b.contains(pair));
                let m: int = choose|m: int| 0 <= m < a.len() && a[m] == pair;
                assert(rest_a[m] == pair);
            }
        }
        lemma_reading_order_unique(rest_a, rest_b);
        assert(a =~= rest_a.push(last_a));
        assert(b =~= rest_b.push(last_b));
    }
}

/// A scan is determined by what it scans: two scans of one grid for the
/// same balls are the same sequence, provided the evaluator never gives both
/// answers for one cell.
pub proof fn lemma_scan_unique<F: Fn(&Vec<MetaBall>, Coord) -> bool>(
    a: Seq<(i32, i32)>,
    b: Seq<(i32, i32)>,
    size: i32,
    balls: Seq<MetaBall>,
    exceeds: F,
)
    requires
        is_scan(a, size, balls, exceeds),
        is_scan(b, size, balls, exceeds),
        decided(exceeds, balls),
    ensures
        a == b,
{
    assert forall|pair: (i32, i32)| a.contains(pair) <==> b.contains(pair) by {
        let cell: Coord = cell_of(pair);
        assert((cell.x, cell.y) == pair);
        assert(!(may_answer(exceeds, balls, cell, true) && may_answer(exceeds, balls, cell, false)));
        if a.contains(pair) {
            let i: int = choose|i: int| 0 <= i < a.len() && a[i] == pair;
            assert(may_be_occupied(exceeds, balls, cell_of(a[i])));
            if !b.contains(pair) {
                assert(may_be_free(exceeds, balls, cell));
            }
        }
        if b.contains(pair) {
            let i: int = choose|i: int| 0 <= i < b.len() && b[i] == pair;
            assert(may_be_occupied(exceeds, balls, cell_of(b[i])));
            if !a.contains(pair) {
                assert(may_be_free(exceeds, balls, cell));
            }
        }
    }
    lemma_reading_order_unique(a, b);
}

/// `blob` is determined by its arguments: two results for one seed, one
/// grid and the same ranges are the same error or hold the same cells in the
/// same order, provided the evaluator never gives both answers for one cell.
pub proof fn lemma_blob_deterministic<F: Fn(&Vec<MetaBall>, Coord) -> bool>(
    first: Result<Vec<(i32, i32)>, BlobError>,
    second: Result<Vec<(i32, i32)>, BlobError>,
    seed: i64,
    size: i32,
    num_balls: (i32, i32),
    inner_range: (i32, i32),
    ball_size: (i32, i32),
    exceeds: F,
)
    requires
        is_blob(first, seed, size, num_balls, inner_range, ball_size, exceeds),
        is_blob(second, seed, size, num_balls, inner_range, ball_size, exceeds),
        decided(exceeds, sampled_balls(seed, num_balls, inner_range, ball_size)),
    ensures
        first is Ok <==> second is Ok,
        first is Ok ==> first.unwrap()@ == second.unwrap()@,
        first is Err ==> first == second,
{
    if first_inverted(num_balls, inner_range, ball_size) is None {
        lemma_scan_unique(
            first.unwrap()@,
            second.unwrap()@,
            size,
            sampled_balls(seed, num_balls, inner_range, ball_size),
            exceeds,
        );
    }
}

/// A scan never steps back: from one of its cells to a later one the row
/// does not decrease, and within a row the column does not decrease.
pub proof fn lemma_scan_row_major<F: Fn(&Vec<MetaBall>, Coord) -> bool>(
    cells: Seq<(i32, i32)>,
    size: i32,
    balls: Seq<MetaBall>,
    exceeds: F,
    i: int,
    j: int,
)
    requires
        is_scan(cells, size, balls, exceeds),
        0 <= i <= j < cells.len(),
    ensures
        cells[i].1 <= cells[j].1,
        cells[i].1 == cells[j].1 ==> cells[i].0 <= cells[j].0,
{
    if i < j {
        assert(scanned_before(cell_of(cells[i]), cell_of(cells[j])));
    }
}

/// Every cell that a scan names lies on the grid.
pub proof fn lemma_scan_within_grid<F: Fn(&Vec<MetaBall>, Coord) -> bool>(
    cells: Seq<(i32, i32)>,
    size: i32,
    balls: Seq<MetaBall>,
    exceeds: F,
    i: int,
)
    requires
        is_scan(cells, size, balls, exceeds),
        0 <= i < cells.len(),
    ensures
        0 <= cells[i].0 < size,
        0 <= cells[i].1 < size,
{
    assert(in_grid(size, cell_of(cells[i])));
}

/// A ball saturates its own centre: a scan names every cell of the grid
/// that a ball is centred on, whatever the evaluator says.
pub proof fn lemma_centre_is_occupied<F: Fn(&Vec<MetaBall>, Coord) -> bool>(
    cells: Seq<(i32, i32)>,
    size: i32,
    balls: Seq<MetaBall>,
    exceeds: F,
    i: int,
)
    requires
        is_scan(cells, size, balls, exceeds),
        0 <= i < balls.len(),
        in_grid(size, balls[i].center),
    ensures
        cells.contains((balls[i].center.x, balls[i].center.y)),
{
    let cell: Coord = balls[i].center;
    if !cells.contains((cell.x, cell.y)) {
        assert(may_be_free(exceeds, balls, cell));
    }
}

/// Without balls there is no field: a scan for no balls names no cell,
/// whatever the evaluator says.
pub proof fn lemma_no_balls_no_cells<F: Fn(&Vec<MetaBall>, Coord) -> bool>(
    cells: Seq<(i32, i32)>,
    size: i32,
    balls: Seq<MetaBall>,
    exceeds: F,
)
    requires
        is_scan(cells, size, balls, exceeds),
        balls.len() == 0,
    ensures
        cells =~= Seq::<(i32, i32)>::empty(),
{
    if cells.len() > 0 {
        assert(may_be_occupied(exceeds, balls, cell_of(cells[0])));
    }
}

} // verus!
