use crate::simulation::obstacle::{spec_points_valid, Obstacle, ObstaclesType, Point};
use vstd::arithmetic::div_mod::{
    lemma_fundamental_div_mod, lemma_fundamental_div_mod_converse,
    lemma_mod_division_less_than_divisor,
};
use vstd::prelude::*;

verus! {

/// Describes if a certain cell is a wall or not.
#[derive(PartialEq, Eq, Structural, Copy, Clone, Hash, Debug)]
pub enum ContainerWall {
    /// Default wall variant. Used for the domain border and for filling the
    /// inner cells of the obstacles.
    DefaultWall,
    /// Means the cell is accessible for the fluid.
    NoWall,
}

/// Clamps `val` into the closed interval `[lo, hi]`.
pub open spec fn spec_constrain(val: int, lo: int, hi: int) -> int {
    if val < lo {
        lo
    } else if val > hi {
        hi
    } else {
        val
    }
}

/// The linear index of the logical coordinate `(x, y)` on a `size x size`
/// grid. Both coordinates are first clamped into `[0, size - 1]`, so every
/// request lands inside the grid, however far out of range it is.
pub open spec fn spec_idx(x: int, y: int, size: int) -> int {
    spec_constrain(x, 0, size - 1) + spec_constrain(y, 0, size - 1) * size
}

/// The clamped index is always inside the `size * size` cell array.
pub proof fn lemma_idx_in_range(x: int, y: int, size: int)
    requires
        1 <= size,
    ensures
        0 <= spec_idx(x, y, size) < size * size,
{
    let cx = spec_constrain(x, 0, size - 1);
    let cy = spec_constrain(y, 0, size - 1);
    assert(0 <= cx <= size - 1);
    assert(0 <= cy <= size - 1);
    assert(0 <= cx + cy * size < size * size) by (nonlinear_arith)
        requires
            0 <= cx <= size - 1,
            0 <= cy <= size - 1,
            1 <= size,
    ;
}

/// Coordinates that are already in range round-trip through the index: the
/// index function is a bijection between `[0, size)^2` and `[0, size * size)`,
/// inverted by `FluidCube::to_coordinate`.
pub proof fn lemma_idx_roundtrip(x: int, y: int, size: int)
    requires
        1 <= size,
        0 <= x < size,
        0 <= y < size,
    ensures
        spec_idx(x, y, size) % size == x,
        spec_idx(x, y, size) / size == y,
{
    assert(spec_idx(x, y, size) == y * size + x);
    lemma_fundamental_div_mod_converse(spec_idx(x, y, size), size, y, x);
}

/// Any linear index into the grid decomposes into the coordinate it stands
/// for: the index function is onto `[0, size * size)`.
pub proof fn lemma_coord_of_idx(k: int, size: int)
    requires
        1 <= size,
        0 <= k < size * size,
    ensures
        0 <= k % size < size,
        0 <= k / size < size,
        spec_idx(k % size, k / size, size) == k,
{
    lemma_fundamental_div_mod(k, size);
    lemma_mod_division_less_than_divisor(k, size);
    assert(0 <= k / size < size && k % size + (k / size) * size == k) by (nonlinear_arith)
        requires
            k == size * (k / size) + k % size,
            0 <= k % size < size,
            0 <= k < size * size,
            1 <= size,
    ;
}

/// On in-range coordinates the index function is injective.
pub proof fn lemma_idx_injective(x1: int, y1: int, x2: int, y2: int, size: int)
    requires
        1 <= size,
        0 <= x1 < size,
        0 <= y1 < size,
        0 <= x2 < size,
        0 <= y2 < size,
        spec_idx(x1, y1, size) == spec_idx(x2, y2, size),
    ensures
        x1 == x2,
        y1 == y2,
{
    lemma_idx_roundtrip(x1, y1, size);
    lemma_idx_roundtrip(x2, y2, size);
}

/// Whether the coordinate `(x, y)` lies on the border of a `size x size` grid.
pub open spec fn spec_on_border(x: int, y: int, size: int) -> bool {
    x == 0 || x == size - 1 || y == 0 || y == size - 1
}

/// Whether the coordinate `(x, y)` lies inside the axis-aligned bounding box
/// spanned by the two corners: a half-open box, including the down-left corner
/// and excluding the up-right one.
pub open spec fn spec_in_box(down_left_point: Point, up_right_point: Point, x: int, y: int) -> bool {
    &&& down_left_point.0 <= x < up_right_point.0
    &&& down_left_point.1 <= y < up_right_point.1
}

/// How many cells of the array are classified as [`ContainerWall::DefaultWall`].
pub open spec fn wall_count(cells: Seq<ContainerWall>) -> nat
    decreases cells.len(),
{
    if cells.len() == 0 {
        0
    } else {
        wall_count(cells.drop_last()) + if cells.last() is DefaultWall {
            1nat
        } else {
            0nat
        }
    }
}

/// Extending the counted prefix by one cell raises the count exactly when that
/// cell is a wall.
proof fn lemma_wall_count_take_step(cells: Seq<ContainerWall>, k: int)
    requires
        0 <= k < cells.len(),
    ensures
        wall_count(cells.take(k + 1)) == wall_count(cells.take(k)) + if cells[k] is DefaultWall {
            1int
        } else {
            0int
        },
{
    assert(cells.take(k + 1).drop_last() =~= cells.take(k));
    assert(cells.take(k + 1).last() == cells[k]);
}

/// Whether the cell at linear index `k` lies on the grid border.
spec fn spec_border_cell(k: int, size: int) -> bool {
    spec_on_border(k % size, k / size, size)
}

/// How many of the first `n` linear indices lie on the grid border.
spec fn border_count(n: nat, size: int) -> nat
    decreases n,
{
    if n == 0 {
        0
    } else {
        border_count((n - 1) as nat, size) + if spec_border_cell(n - 1, size) {
            1nat
        } else {
            0nat
        }
    }
}

/// The border cells counted row by row: `y` complete rows. The first and the
/// last row are wall throughout; every row in between holds its two end cells.
spec fn border_rows_sum(y: int, size: int) -> int {
    if y <= 0 {
        0
    } else if y <= size - 1 {
        size + 2 * (y - 1)
    } else {
        4 * size - 4
    }
}

/// The border cells among the first `x` cells of row `y`.
spec fn border_row_partial(x: int, y: int, size: int) -> int {
    if y == 0 || y == size - 1 {
        x
    } else if x >= 1 {
        1
    } else {
        0
    }
}

/// `border_count` in closed form: the complete rows below, plus the walked
/// part of the current row.
proof fn lemma_border_count_closed(n: int, size: int)
    requires
        3 <= size,
        0 <= n <= size * size,
    ensures
        border_count(n as nat, size) == border_rows_sum(n / size, size) + border_row_partial(
            n % size,
            n / size,
            size,
        ),
    decreases n,
{
    vstd::arithmetic::mul::lemma_mul_is_commutative(size, n / size);
    if n == 0 {
        lemma_fundamental_div_mod(n, size);
        lemma_mod_division_less_than_divisor(n, size);
        assert(0 <= n / size < size && n % size + (n / size) * size == n) by (nonlinear_arith)
            requires
                n == size * (n / size) + n % size,
                0 <= n % size < size,
                n == 0,
                1 <= size,
        ;
    } else {
        lemma_border_count_closed(n - 1, size);
        lemma_coord_of_idx(n - 1, size);
        let x0 = (n - 1) % size;
        let y0 = (n - 1) / size;
        vstd::arithmetic::mul::lemma_mul_is_commutative(size, y0);
        vstd::arithmetic::mul::lemma_mul_is_commutative(size, y0 + 1);
        if x0 < size - 1 {
            lemma_fundamental_div_mod(n - 1, size);
            lemma_fundamental_div_mod_converse(n, size, y0, x0 + 1);
            assert(n / size == y0 && n % size == x0 + 1);
        } else {
            lemma_fundamental_div_mod(n - 1, size);
            assert(n == (y0 + 1) * size + 0) by (nonlinear_arith)
                requires
                    n - 1 == size * y0 + x0,
                    x0 == size - 1,
            ;
            lemma_fundamental_div_mod_converse(n, size, y0 + 1, 0);
            assert(n / size == y0 + 1 && n % size == 0);
            assert(y0 + 1 <= size) by (nonlinear_arith)
                requires
                    n <= size * size,
                    n == (y0 + 1) * size,
                    1 <= size,
            ;
        }
    }
}

/// The number of walls that a fresh grid carries, counted over the whole cell
/// array, matches the closed-form perimeter formula.
proof fn lemma_fresh_grid_prefix_count(cells: Seq<ContainerWall>, size: int, n: int)
    requires
        3 <= size,
        cells.len() == size * size,
        forall|x: int, y: int|
            0 <= x < size && 0 <= y < size ==> cells[spec_idx(x, y, size)] == (if spec_on_border(
                x,
                y,
                size,
            ) {
                ContainerWall::DefaultWall
            } else {
                ContainerWall::NoWall
            }),
        0 <= n <= size * size,
    ensures
        wall_count(cells.take(n)) == border_count(n as nat, size),
    decreases n,
{
    if n == 0 {
        assert(cells.take(0) =~= Seq::<ContainerWall>::empty());
    } else {
        lemma_fresh_grid_prefix_count(cells, size, n - 1);
        lemma_wall_count_take_step(cells, n - 1);
        lemma_coord_of_idx(n - 1, size);
        let x0 = (n - 1) % size;
        let y0 = (n - 1) / size;
        assert(cells[spec_idx(x0, y0, size)] == (if spec_on_border(x0, y0, size) {
            ContainerWall::DefaultWall
        } else {
            ContainerWall::NoWall
        }));
    }
}

/// The wall budget of a fresh cell array: marking the border of a
/// `size x size` container costs exactly `2 * (size + (size - 2))` wall
/// cells — the closed-form perimeter of the image frame — for any grid size
/// of at least 3.
pub proof fn lemma_fresh_cells_wall_budget(cells: Seq<ContainerWall>, size: int)
    requires
        3 <= size,
        cells.len() == size * size,
        forall|x: int, y: int|
            0 <= x < size && 0 <= y < size ==> cells[spec_idx(x, y, size)] == (if spec_on_border(
                x,
                y,
                size,
            ) {
                ContainerWall::DefaultWall
            } else {
                ContainerWall::NoWall
            }),
    ensures
        wall_count(cells) == 2 * (size + (size - 2)),
{
    let n = size * size;
    assert(size * size >= 3 * size) by (nonlinear_arith)
        requires
            3 <= size,
    ;
    lemma_fresh_grid_prefix_count(cells, size, n);
    assert(cells.take(n) =~= cells);
    lemma_border_count_closed(n, size);
    lemma_fundamental_div_mod_converse(n, size, size, 0);
    assert(border_rows_sum(n / size, size) == 4 * size - 4);
    assert(border_row_partial(n % size, n / size, size) == 0);
}

/// The wall budget of a fresh grid: see [`lemma_fresh_cells_wall_budget`].
/// This holds of every grid before any user obstacle is stamped.
pub proof fn lemma_fresh_grid_wall_budget(cube: FluidCube)
    requires
        cube.wf(),
        cube.is_fresh_border_grid(),
    ensures
        wall_count(cube.cells_type@) == 2 * (cube.size + (cube.size - 2)),
{
    lemma_fresh_cells_wall_budget(cube.cells_type@, cube.size as int);
}

/// How many of the first `n` linear indices lie inside the given bounding
/// box.
spec fn box_count(n: nat, down_left_point: Point, up_right_point: Point, size: int) -> nat
    decreases n,
{
    if n == 0 {
        0
    } else {
        box_count((n - 1) as nat, down_left_point, up_right_point, size) + if spec_in_box(
            down_left_point,
            up_right_point,
            (n - 1) % size,
            (n - 1) / size,
        ) {
            1nat
        } else {
            0nat
        }
    }
}

/// The box cells counted row by row: the box's width for every complete row
/// the walk has passed inside the box's vertical span.
spec fn box_rows_sum(y: int, down_left_point: Point, up_right_point: Point) -> int {
    (up_right_point.0 - down_left_point.0) * spec_constrain(
        y - down_left_point.1,
        0,
        up_right_point.1 - down_left_point.1,
    )
}

/// The box cells among the first `x` cells of row `y`.
spec fn box_row_partial(x: int, y: int, down_left_point: Point, up_right_point: Point) -> int {
    if down_left_point.1 <= y < up_right_point.1 {
        spec_constrain(x - down_left_point.0, 0, up_right_point.0 - down_left_point.0)
    } else {
        0
    }
}

/// `box_count` in closed form: the complete rows crossed inside the box, plus
/// the walked part of the current row.
proof fn lemma_box_count_closed(n: int, down_left_point: Point, up_right_point: Point, size: int)
    requires
        3 <= size,
        spec_points_valid(down_left_point, up_right_point, size),
        0 <= n <= size * size,
    ensures
        box_count(n as nat, down_left_point, up_right_point, size) == box_rows_sum(
            n / size,
            down_left_point,
            up_right_point,
        ) + box_row_partial(n % size, n / size, down_left_point, up_right_point),
    decreases n,
{
    let w = up_right_point.0 - down_left_point.0;
    if n == 0 {
        lemma_fundamental_div_mod(n, size);
        lemma_mod_division_less_than_divisor(n, size);
        assert(n / size == 0 && n % size == 0) by (nonlinear_arith)
            requires
                n == size * (n / size) + n % size,
                0 <= n % size < size,
                n == 0,
                1 <= size,
        ;
        assert(spec_constrain(0 - down_left_point.1, 0, up_right_point.1 - down_left_point.1)
            == 0);
        assert(w * 0 == 0) by (nonlinear_arith);
    } else {
        lemma_box_count_closed(n - 1, down_left_point, up_right_point, size);
        lemma_coord_of_idx(n - 1, size);
        let x0 = (n - 1) % size;
        let y0 = (n - 1) / size;
        vstd::arithmetic::mul::lemma_mul_is_commutative(size, y0);
        vstd::arithmetic::mul::lemma_mul_is_commutative(size, y0 + 1);
        if x0 < size - 1 {
            lemma_fundamental_div_mod(n - 1, size);
            lemma_fundamental_div_mod_converse(n, size, y0, x0 + 1);
            assert(n / size == y0 && n % size == x0 + 1);
        } else {
            lemma_fundamental_div_mod(n - 1, size);
            assert(n == (y0 + 1) * size + 0) by (nonlinear_arith)
                requires
                    n - 1 == size * y0 + x0,
                    x0 == size - 1,
            ;
            lemma_fundamental_div_mod_converse(n, size, y0 + 1, 0);
            assert(n / size == y0 + 1 && n % size == 0);
            // The box never reaches the last column, so the row's final cell
            // is outside it and the row change leaves the closed form stable.
            let c0 = spec_constrain(y0 - down_left_point.1, 0, up_right_point.1 - down_left_point.1);
            let c1 = spec_constrain(
                y0 + 1 - down_left_point.1,
                0,
                up_right_point.1 - down_left_point.1,
            );
            assert(w * c1 == w * c0 + w * (c1 - c0)) by (nonlinear_arith);
            assert(box_row_partial(x0, y0, down_left_point, up_right_point) == w * (c1 - c0))
                by (nonlinear_arith)
                requires
                    c0 == spec_constrain(
                        y0 - down_left_point.1,
                        0,
                        up_right_point.1 - down_left_point.1,
                    ),
                    c1 == spec_constrain(
                        y0 + 1 - down_left_point.1,
                        0,
                        up_right_point.1 - down_left_point.1,
                    ),
                    box_row_partial(x0, y0, down_left_point, up_right_point) == (if down_left_point.1
                        <= y0 < up_right_point.1 {
                        spec_constrain(x0 - down_left_point.0, 0, w)
                    } else {
                        0int
                    }),
                    w == up_right_point.0 - down_left_point.0,
                    x0 == size - 1,
                    0 <= down_left_point.0 < up_right_point.0 < size,
                    0 <= down_left_point.1 < up_right_point.1 < size,
            ;
        }
    }
}

/// Walking one more cell past a stamped box raises the wall count relative to
/// the unstamped grid exactly when that cell lies in the box.
proof fn lemma_stamped_box_prefix_count(
    old_cells: Seq<ContainerWall>,
    new_cells: Seq<ContainerWall>,
    down_left_point: Point,
    up_right_point: Point,
    size: int,
    n: int,
)
    requires
        3 <= size,
        old_cells.len() == size * size,
        new_cells.len() == size * size,
        spec_points_valid(down_left_point, up_right_point, size),
        forall|x: int, y: int|
            0 <= x < size && 0 <= y < size ==> new_cells[spec_idx(x, y, size)] == (if spec_in_box(
                down_left_point,
                up_right_point,
                x,
                y,
            ) {
                ContainerWall::DefaultWall
            } else {
                old_cells[spec_idx(x, y, size)]
            }),
        forall|x: int, y: int|
            spec_in_box(down_left_point, up_right_point, x, y) ==> old_cells[spec_idx(x, y, size)]
                != ContainerWall::DefaultWall,
        0 <= n <= size * size,
    ensures
        wall_count(new_cells.take(n)) == wall_count(old_cells.take(n)) + box_count(
            n as nat,
            down_left_point,
            up_right_point,
            size,
        ),
    decreases n,
{
    if n == 0 {
        assert(new_cells.take(0) =~= Seq::<ContainerWall>::empty());
        assert(old_cells.take(0) =~= Seq::<ContainerWall>::empty());
    } else {
        lemma_stamped_box_prefix_count(
            old_cells,
            new_cells,
            down_left_point,
            up_right_point,
            size,
            n - 1,
        );
        lemma_wall_count_take_step(old_cells, n - 1);
        lemma_wall_count_take_step(new_cells, n - 1);
        lemma_coord_of_idx(n - 1, size);
        let x0 = (n - 1) % size;
        let y0 = (n - 1) / size;
        assert(new_cells[spec_idx(x0, y0, size)] == (if spec_in_box(
            down_left_point,
            up_right_point,
            x0,
            y0,
        ) {
            ContainerWall::DefaultWall
        } else {
            old_cells[spec_idx(x0, y0, size)]
        }));
        if spec_in_box(down_left_point, up_right_point, x0, y0) {
            assert(old_cells[spec_idx(x0, y0, size)] != ContainerWall::DefaultWall);
        }
    }
}

/// Stamping one bounding box whose cells carried no wall raises the total
/// wall count by exactly the box's area.
pub proof fn lemma_stamped_box_adds_area(
    old_cells: Seq<ContainerWall>,
    new_cells: Seq<ContainerWall>,
    down_left_point: Point,
    up_right_point: Point,
    size: int,
)
    requires
        3 <= size,
        old_cells.len() == size * size,
        new_cells.len() == size * size,
        spec_points_valid(down_left_point, up_right_point, size),
        forall|x: int, y: int|
            0 <= x < size && 0 <= y < size ==> new_cells[spec_idx(x, y, size)] == (if spec_in_box(
                down_left_point,
                up_right_point,
                x,
                y,
            ) {
                ContainerWall::DefaultWall
            } else {
                old_cells[spec_idx(x, y, size)]
            }),
        forall|x: int, y: int|
            spec_in_box(down_left_point, up_right_point, x, y) ==> old_cells[spec_idx(x, y, size)]
                != ContainerWall::DefaultWall,
    ensures
        wall_count(new_cells) == wall_count(old_cells) + (up_right_point.0 - down_left_point.0) * (
        up_right_point.1 - down_left_point.1),
{
    let n = size * size;
    assert(size * size >= 3 * size) by (nonlinear_arith)
        requires
            3 <= size,
    ;
    lemma_stamped_box_prefix_count(old_cells, new_cells, down_left_point, up_right_point, size, n);
    assert(new_cells.take(n) =~= new_cells);
    assert(old_cells.take(n) =~= old_cells);
    lemma_box_count_closed(n, down_left_point, up_right_point, size);
    lemma_fundamental_div_mod_converse(n, size, size, 0);
    assert(box_row_partial(n % size, n / size, down_left_point, up_right_point) == 0);
    assert(box_rows_sum(size, down_left_point, up_right_point) == (up_right_point.0
        - down_left_point.0) * (up_right_point.1 - down_left_point.1));
}

/// The grid of per-cell wall classifications. The fluid solver reads it to
/// decide which cells reflect velocities and which carry fluid; the obstacles
/// are stamped onto it and un-stamped from it between frames.
#[derive(Clone)]
pub struct FluidCube {
    /// The side of the square grid, in cells.
    pub size: u32,
    /// Defines which cells are "allowed" for the fluid to run into and which
    /// are "obstacles", via the [`ContainerWall`] classification.
    pub cells_type: Vec<ContainerWall>,
}

impl FluidCube {
    /// The cell array has exactly one entry per grid cell.
    pub open spec fn wf(&self) -> bool {
        &&& 3 <= self.size
        &&& self.size * self.size <= u32::MAX
        &&& self.cells_type@.len() == self.size * self.size
    }

    /// Clamps `var` into the closed interval `[lower_bound, upper_bound]`.
    pub fn constrain(var: u32, lower_bound: u32, upper_bound: u32) -> (r: u32)
        requires
            lower_bound <= upper_bound,
        ensures
            r == spec_constrain(var as int, lower_bound as int, upper_bound as int),
    {
        if var < lower_bound {
            lower_bound
        } else if var > upper_bound {
            upper_bound
        } else {
            var
        }
    }

    /// The linear index of `(x, y)` on a `size x size` grid, with both
    /// coordinates clamped into range first. Out-of-range logical requests are
    /// silently clamped, never rejected: coordinates here are routinely derived
    /// from back-traced positions that may point slightly outside the grid.
    pub fn idx(x: i64, y: i64, size: i64) -> (r: usize)
        requires
            1 <= size,
            size * size <= i64::MAX,
            size * size <= usize::MAX,
        ensures
            r == spec_idx(x as int, y as int, size as int),
            r < size * size,
    {
        let cx: i64 = if x < 0 {
            0
        } else if x > size - 1 {
            size - 1
        } else {
            x
        };
        let cy: i64 = if y < 0 {
            0
        } else if y > size - 1 {
            size - 1
        } else {
            y
        };
        proof {
            lemma_idx_in_range(x as int, y as int, size as int);
        }
        assert(cx + cy * size < size * size) by (nonlinear_arith)
            requires
                0 <= cx <= size - 1,
                0 <= cy <= size - 1,
                1 <= size,
        ;
        (cx + cy * size) as usize
    }

    /// The wall classification that a freshly created grid carries: the four
    /// border lines are walls, everything else is open to the fluid.
    pub open spec fn is_fresh_border_grid(&self) -> bool {
        forall|x: int, y: int|
            0 <= x < self.size && 0 <= y < self.size ==> self.cells_type@[spec_idx(
                x,
                y,
                self.size as int,
            )] == (if spec_on_border(x, y, self.size as int) {
                ContainerWall::DefaultWall
            } else {
                ContainerWall::NoWall
            })
    }

    /// Creates a new grid for a `size x size` container: every cell open to
    /// the fluid, except the border lines of the container, which are walls.
    pub fn new(size: u32) -> (r: FluidCube)
        requires
            3 <= size,
            size * size <= u32::MAX,
        ensures
            r.wf(),
            r.size == size,
            r.is_fresh_border_grid(),
    {
        let n: u32 = size * size;
        let mut cells_type: Vec<ContainerWall> = Vec::new();
        let mut i: u32 = 0;
        while i < n
            invariant
                i <= n,
                cells_type@.len() == i,
                forall|k: int| 0 <= k < i ==> cells_type@[k] == ContainerWall::NoWall,
            decreases n - i,
        {
            cells_type.push(ContainerWall::NoWall);
            i = i + 1;
        }
        let mut result = FluidCube { size, cells_type };
        proof {
            assert forall|x: int, y: int|
                0 <= x < size && 0 <= y < size implies result.cells_type@[spec_idx(
                x,
                y,
                size as int,
            )] == ContainerWall::NoWall by {
                lemma_idx_in_range(x, y, size as int);
            }
        }
        result.init_walls();
        result
    }

    /// Initializes the walls in the field, i.e. the image's frame, by marking
    /// each border cell with [`ContainerWall::DefaultWall`].
    fn init_walls(&mut self)
        requires
            old(self).wf(),
        ensures
            final(self).wf(),
            final(self).size == old(self).size,
            forall|x: int, y: int|
                0 <= x < old(self).size && 0 <= y < old(self).size ==> final(self).cells_type@[spec_idx(x, y, old(self).size as int)] == (if spec_on_border(
                    x,
                    y,
                    old(self).size as int,
                ) {
                    ContainerWall::DefaultWall
                } else {
                    old(self).cells_type@[spec_idx(x, y, old(self).size as int)]
                }),
    {
        let size: i64 = self.size as i64;
        let ghost initial = *self;
        let mut i: i64 = 0;
        while i < size
            invariant
                0 <= i <= size,
                size == self.size,
                self.wf(),
                self.size == initial.size,
                self.cells_type@.len() == initial.cells_type@.len(),
                forall|x: int, y: int|
                    0 <= x < size && 0 <= y < size ==> self.cells_type@[spec_idx(
                        x,
                        y,
                        size as int,
                    )] == (if (y == 0 || y == size - 1) && x < i {
                        ContainerWall::DefaultWall
                    } else {
                        initial.cells_type@[spec_idx(x, y, size as int)]
                    }),
            decreases size - i,
        {
            let k1 = Self::idx(i, 0, size);
            self.cells_type.set(k1, ContainerWall::DefaultWall);
            let k2 = Self::idx(i, size - 1, size);
            self.cells_type.set(k2, ContainerWall::DefaultWall);
            proof {
                assert forall|x: int, y: int|
                    0 <= x < size && 0 <= y < size implies self.cells_type@[spec_idx(
                    x,
                    y,
                    size as int,
                )] == (if (y == 0 || y == size - 1) && x < i + 1 {
                    ContainerWall::DefaultWall
                } else {
                    initial.cells_type@[spec_idx(x, y, size as int)]
                }) by {
                    lemma_idx_in_range(x, y, size as int);
                    if spec_idx(x, y, size as int) == k1 {
                        lemma_idx_injective(x, y, i as int, 0, size as int);
                    }
                    if spec_idx(x, y, size as int) == k2 {
                        lemma_idx_injective(x, y, i as int, size - 1, size as int);
                    }
                }
            }
            i = i + 1;
        }
        let mut j: i64 = 0;
        while j < size
            invariant
                0 <= j <= size,
                size == self.size,
                self.wf(),
                self.size == initial.size,
                self.cells_type@.len() == initial.cells_type@.len(),
                forall|x: int, y: int|
                    0 <= x < size && 0 <= y < size ==> self.cells_type@[spec_idx(
                        x,
                        y,
                        size as int,
                    )] == (if (y == 0 || y == size - 1) || ((x == 0 || x == size - 1) && y < j) {
                        ContainerWall::DefaultWall
                    } else {
                        initial.cells_type@[spec_idx(x, y, size as int)]
                    }),
            decreases size - j,
        {
            let k1 = Self::idx(0, j, size);
            self.cells_type.set(k1, ContainerWall::DefaultWall);
            let k2 = Self::idx(size - 1, j, size);
            self.cells_type.set(k2, ContainerWall::DefaultWall);
            proof {
                assert forall|x: int, y: int|
                    0 <= x < size && 0 <= y < size implies self.cells_type@[spec_idx(
                    x,
                    y,
                    size as int,
                )] == (if (y == 0 || y == size - 1) || ((x == 0 || x == size - 1) && y < j + 1) {
                    ContainerWall::DefaultWall
                } else {
                    initial.cells_type@[spec_idx(x, y, size as int)]
                }) by {
                    lemma_idx_in_range(x, y, size as int);
                    if spec_idx(x, y, size as int) == k1 {
                        lemma_idx_injective(x, y, 0, j as int, size as int);
                    }
                    if spec_idx(x, y, size as int) == k2 {
                        lemma_idx_injective(x, y, size - 1, j as int, size as int);
                    }
                }
            }
            j = j + 1;
        }
    }

    /// Fills the inner cells of the obstacle's bounding box with the given
    /// wall classification: [`ContainerWall::DefaultWall`] draws the obstacle,
    /// [`ContainerWall::NoWall`] erases it. This works as an approximation of
    /// the real obstacle, by stamping its axis-aligned bounding box.
    pub fn fill_obstacle(&mut self, obstacle: &ObstaclesType, wall_type: ContainerWall)
        requires
            old(self).wf(),
            crate::simulation::obstacle::spec_points_valid(
                obstacle.spec_corners().0,
                obstacle.spec_corners().1,
                old(self).size as int,
            ),
        ensures
            final(self).wf(),
            final(self).size == old(self).size,
            forall|x: int, y: int|
                0 <= x < old(self).size && 0 <= y < old(self).size ==> final(self).cells_type@[spec_idx(x, y, old(self).size as int)] == (if spec_in_box(
                    obstacle.spec_corners().0,
                    obstacle.spec_corners().1,
                    x,
                    y,
                ) {
                    wall_type
                } else {
                    old(self).cells_type@[spec_idx(x, y, old(self).size as int)]
                }),
    {
        let size: i64 = self.size as i64;
        let ghost initial = *self;
        let points = obstacle.get_approximate_points();
        let down_left = points[0];
        let up_right = points[1];
        let mut x: i64 = down_left.0;
        while x < up_right.0
            invariant
                down_left == obstacle.spec_corners().0,
                up_right == obstacle.spec_corners().1,
                0 <= down_left.0 <= x <= up_right.0 < size,
                0 <= down_left.1 < up_right.1 < size,
                size == self.size,
                self.wf(),
                self.size == initial.size,
                forall|xx: int, yy: int|
                    0 <= xx < size && 0 <= yy < size ==> self.cells_type@[spec_idx(
                        xx,
                        yy,
                        size as int,
                    )] == (if down_left.0 <= xx < x && down_left.1 <= yy < up_right.1 {
                        wall_type
                    } else {
                        initial.cells_type@[spec_idx(xx, yy, size as int)]
                    }),
            decreases up_right.0 - x,
        {
            let mut y: i64 = down_left.1;
            while y < up_right.1
                invariant
                    down_left == obstacle.spec_corners().0,
                    up_right == obstacle.spec_corners().1,
                    0 <= down_left.0 <= x < up_right.0 < size,
                    0 <= down_left.1 <= y <= up_right.1 < size,
                    size == self.size,
                    self.wf(),
                    self.size == initial.size,
                    forall|xx: int, yy: int|
                        0 <= xx < size && 0 <= yy < size ==> self.cells_type@[spec_idx(
                            xx,
                            yy,
                            size as int,
                        )] == (if (down_left.0 <= xx < x && down_left.1 <= yy < up_right.1) || (xx
                            == x && down_left.1 <= yy < y) {
                            wall_type
                        } else {
                            initial.cells_type@[spec_idx(xx, yy, size as int)]
                        }),
                decreases up_right.1 - y,
            {
                let k = Self::idx(x, y, size);
                self.cells_type.set(k, wall_type);
                proof {
                    assert forall|xx: int, yy: int|
                        0 <= xx < size && 0 <= yy < size implies self.cells_type@[spec_idx(
                        xx,
                        yy,
                        size as int,
                    )] == (if (down_left.0 <= xx < x && down_left.1 <= yy < up_right.1) || (xx == x
                        && down_left.1 <= yy < y + 1) {
                        wall_type
                    } else {
                        initial.cells_type@[spec_idx(xx, yy, size as int)]
                    }) by {
                        lemma_idx_in_range(xx, yy, size as int);
                        if spec_idx(xx, yy, size as int) == k {
                            lemma_idx_injective(xx, yy, x as int, y as int, size as int);
                        }
                    }
                }
                y = y + 1;
            }
            x = x + 1;
        }
    }

    /// Counts how many cells of the grid are classified as
    /// [`ContainerWall::DefaultWall`].
    pub fn count_default_walls(&self) -> (r: usize)
        ensures
            r == wall_count(self.cells_type@),
    {
        let mut count: usize = 0;
        let mut k: usize = 0;
        let n = self.cells_type.len();
        while k < n
            invariant
                0 <= k <= n,
                n == self.cells_type@.len(),
                count <= k,
                count == wall_count(self.cells_type@.take(k as int)),
            decreases n - k,
        {
            proof {
                lemma_wall_count_take_step(self.cells_type@, k as int);
            }
            if self.cells_type[k] == ContainerWall::DefaultWall {
                count = count + 1;
            }
            k = k + 1;
        }
        proof {
            assert(self.cells_type@.take(n as int) =~= self.cells_type@);
        }
        count
    }

    /// Recovers the `(x, y)` coordinate that a linear index stands for.
    pub fn to_coordinate(idx: i64, size: i64) -> (r: (i64, i64))
        requires
            1 <= size,
            0 <= idx,
        ensures
            r.0 == idx as int % size as int,
            r.1 == idx as int / size as int,
    {
        (idx % size, idx / size)
    }
}

} // verus!
