use crate::simulation::fluid::{lemma_idx_in_range, spec_idx, FluidCube};
use crate::simulation::obstacle::{spec_points_valid, Obstacle, ObstaclesType, Point, Rectangle};
use vstd::arithmetic::div_mod::lemma_fundamental_div_mod_converse;
use vstd::prelude::*;

verus! {

/// The side, in grid cells, of one block of the coarsened obstacle grid that
/// the cellular automaton evolves.
pub const CELL_SIZE: i64 = 8;

/// Relies on `rand::random`: draws a value from the thread-local generator.
/// Of a random draw nothing is promised.
pub assume_specification<T>[ rand::random::<T> ]() -> (r: T)
    where
        rand::distr::StandardUniform: rand::distr::Distribution<T>,
;

/// The width of the coarsened obstacle grid, in blocks.
pub fn normalized_width(width: i64) -> (r: i64)
    requires
        0 <= width,
    ensures
        r == width as int / (CELL_SIZE as int),
{
    width / CELL_SIZE
}

/// The height of the coarsened obstacle grid, in blocks. Width and height of
/// the container are always the same, so this mirrors
/// [`normalized_width`].
pub fn normalized_height(height: i64) -> (r: i64)
    requires
        0 <= height,
    ensures
        r == height as int / (CELL_SIZE as int),
{
    normalized_width(height)
}

/// A coarsened-grid bitmap with one randomly drawn alive/dead flag per block.
/// Nothing is promised of the flags themselves: they come from the random
/// generator.
pub fn random_cell_bitmap(width: i64, height: i64) -> (r: Vec<bool>)
    requires
        0 <= width,
        0 <= height,
        width as int / (CELL_SIZE as int) * (height as int) <= i64::MAX,
        width as int / (CELL_SIZE as int) * (height as int) / (CELL_SIZE as int) <= usize::MAX,
    ensures
        r@.len() == width as int / (CELL_SIZE as int) * (height as int) / (CELL_SIZE as int),
{
    let cells = width / CELL_SIZE * height / CELL_SIZE;
    let mut cell_bitmap: Vec<bool> = Vec::new();
    let mut i: i64 = 0;
    while i < cells
        invariant
            0 <= i <= cells,
            cell_bitmap@.len() == i,
        decreases cells - i,
    {
        cell_bitmap.push(rand::random());
        i = i + 1;
    }
    cell_bitmap
}

/// The rectangle obstacle standing for the alive block `(cx, cy)` of the
/// coarsened grid: a `CELL_SIZE x CELL_SIZE` box whose up-right corner is the
/// block's down-left grid corner.
pub open spec fn spec_block_obstacle(cx: int, cy: int) -> ObstaclesType {
    ObstaclesType::Rectangle(
        Rectangle {
            down_left_point: (
                ((cx - 1) * (CELL_SIZE as int)) as i64,
                ((cy - 1) * (CELL_SIZE as int)) as i64,
            ),
            up_right_point: ((cx * (CELL_SIZE as int)) as i64, ((cy * (CELL_SIZE as int))) as i64),
        },
    )
}

/// The obstacles that the first `k` blocks of a coarsened-grid bitmap yield,
/// in block order: one rectangle per alive block whose rectangle lies inside
/// the container, the others are left out.
pub open spec fn spec_block_obstacles(bitmap: Seq<bool>, nw: int, k: int) -> Seq<ObstaclesType>
    decreases k,
{
    if k <= 0 {
        Seq::empty()
    } else {
        let prev = spec_block_obstacles(bitmap, nw, k - 1);
        let cx = (k - 1) % nw;
        let cy = (k - 1) / nw;
        let obstacle = spec_block_obstacle(cx, cy);
        if bitmap[k - 1] && spec_points_valid(
            obstacle.spec_corners().0,
            obstacle.spec_corners().1,
            nw * (CELL_SIZE as int),
        ) {
            prev.push(obstacle)
        } else {
            prev
        }
    }
}

/// Converts a coarsened-grid bitmap into the list of rectangle obstacles that
/// its alive blocks stand for. A block whose rectangle would fall outside the
/// container — one in the first block row or column, whose box would carry a
/// negative corner — yields no obstacle.
pub fn cell_bitmap_to_obstacles(
    cell_bitmap: &Vec<bool>,
    normalized_width: i64,
    normalized_height: i64,
) -> (r: Vec<ObstaclesType>)
    requires
        1 <= normalized_width,
        1 <= normalized_height,
        normalized_width * normalized_height <= i64::MAX,
        normalized_width * (CELL_SIZE as int) <= u32::MAX,
        normalized_height * (CELL_SIZE as int) <= i64::MAX,
    ensures
        r@ == spec_block_obstacles(
            cell_bitmap@,
            normalized_width as int,
            if cell_bitmap@.len() < normalized_width * normalized_height {
                cell_bitmap@.len() as int
            } else {
                normalized_width * normalized_height
            },
        ),
{
    let mut obstacles: Vec<ObstaclesType> = Vec::new();
    let mut cell_x: i64 = 0;
    let mut cell_y: i64 = 0;
    let width = normalized_width * CELL_SIZE;

    let n = cell_bitmap.len();
    let mut k: usize = 0;
    while k < n && cell_y < normalized_height
        invariant
            1 <= normalized_width,
            1 <= normalized_height,
            normalized_width * normalized_height <= i64::MAX,
            normalized_width * (CELL_SIZE as int) <= u32::MAX,
            normalized_height * (CELL_SIZE as int) <= i64::MAX,
            width == normalized_width * (CELL_SIZE as int),
            n == cell_bitmap@.len(),
            0 <= k <= n,
            k == cell_y * normalized_width + cell_x,
            0 <= cell_x < normalized_width,
            0 <= cell_y <= normalized_height,
            cell_y < normalized_height || cell_x == 0,
            obstacles@ == spec_block_obstacles(cell_bitmap@, normalized_width as int, k as int),
        decreases n - k,
    {
        proof {
            lemma_fundamental_div_mod_converse(
                k as int,
                normalized_width as int,
                cell_y as int,
                cell_x as int,
            );
            assert(cell_y * normalized_width + cell_x < normalized_width * normalized_height)
                by (nonlinear_arith)
                requires
                    0 <= cell_x < normalized_width,
                    0 <= cell_y < normalized_height,
            ;
        }
        let cell_flag = cell_bitmap[k];
        if cell_flag {
            let p: Point = ((cell_x - 1) * CELL_SIZE, (cell_y - 1) * CELL_SIZE);
            let q: Point = (cell_x * CELL_SIZE, cell_y * CELL_SIZE);
            proof {
                assert((cell_y - 1) * (CELL_SIZE as int) < normalized_height * (CELL_SIZE as int)
                    && cell_y * (CELL_SIZE as int) <= normalized_height * (CELL_SIZE as int))
                    by (nonlinear_arith)
                    requires
                        0 <= cell_y < normalized_height,
                        0 < (CELL_SIZE as int),
                ;
            }
            if let Some(rectangle) = Rectangle::try_new(p, q, width as u32) {
                let obstacle: ObstaclesType = ObstaclesType::Rectangle(rectangle);
                obstacles.push(obstacle);
            }
        }

        // Go to next cell.
        let ghost (k0, cx0, cy0) = (k as int, cell_x as int, cell_y as int);
        k = k + 1;
        cell_x = cell_x + 1;
        if cell_x >= normalized_width {
            cell_x = 0;
            cell_y = cell_y + 1;
            proof {
                assert(k0 + 1 == (cy0 + 1) * normalized_width + 0) by (nonlinear_arith)
                    requires
                        k0 == cy0 * normalized_width + cx0,
                        cx0 == normalized_width - 1,
                ;
            }
        }
    }

    proof {
        assert(k as int <= normalized_width * normalized_height) by (nonlinear_arith)
            requires
                k == cell_y * normalized_width + cell_x,
                0 <= cell_x < normalized_width,
                0 <= cell_y <= normalized_height,
                cell_y < normalized_height || cell_x == 0,
        ;
        if k < n {
            assert(k as int == normalized_width * normalized_height) by (nonlinear_arith)
                requires
                    k == cell_y * normalized_width + cell_x,
                    cell_x == 0,
                    cell_y == normalized_height,
            ;
        }
    }
    obstacles
}

/// The coarsened-grid bitmap that a list of obstacles stands for: starting
/// from an all-dead bitmap, each obstacle marks alive the block in which its
/// up-right corner lies.
pub open spec fn spec_obstacles_bitmap(
    obstacles: Seq<ObstaclesType>,
    nw: int,
    nh: int,
) -> Seq<bool>
    decreases obstacles.len(),
{
    if obstacles.len() == 0 {
        Seq::new((nh * nh) as nat, |i: int| false)
    } else {
        let prev = spec_obstacles_bitmap(obstacles.drop_last(), nw, nh);
        let up_right = obstacles.last().spec_corners().1;
        prev.update(
            spec_idx(
                up_right.0 as int / (CELL_SIZE as int),
                up_right.1 as int / (CELL_SIZE as int),
                nw,
            ),
            true,
        )
    }
}

/// Stores a bitmap indicating whether each block of the coarsened grid is
/// active or not: a block is active when some obstacle's up-right corner lies
/// in it.
pub fn obstacles_to_cell_bitmap(
    obstacles: &Vec<ObstaclesType>,
    normalized_width: i64,
    normalized_height: i64,
) -> (r: Vec<bool>)
    requires
        1 <= normalized_width <= normalized_height,
        normalized_height * normalized_height <= i64::MAX,
        normalized_height * normalized_height <= usize::MAX,
        forall|i: int|
            0 <= i < obstacles@.len() ==> 0 <= (#[trigger] obstacles@[i].spec_corners()).1.0 && 0
                <= obstacles@[i].spec_corners().1.1,
    ensures
        r@ == spec_obstacles_bitmap(obstacles@, normalized_width as int, normalized_height as int),
        r@.len() == normalized_height * normalized_height,
{
    let cells = normalized_height * normalized_height;
    let mut cell_bitmap: Vec<bool> = Vec::new();
    let mut i: i64 = 0;
    while i < cells
        invariant
            0 <= i <= cells,
            cell_bitmap@.len() == i,
            forall|j: int| 0 <= j < i ==> cell_bitmap@[j] == false,
        decreases cells - i,
    {
        cell_bitmap.push(false);
        i = i + 1;
    }
    proof {
        assert(obstacles@.take(0) =~= Seq::<ObstaclesType>::empty());
        assert(cell_bitmap@ =~= spec_obstacles_bitmap(
            obstacles@.take(0),
            normalized_width as int,
            normalized_height as int,
        ));
        assert(normalized_width * normalized_width <= normalized_height * normalized_height)
            by (nonlinear_arith)
            requires
                1 <= normalized_width <= normalized_height,
        ;
    }
    let n = obstacles.len();
    let mut j: usize = 0;
    while j < n
        invariant
            1 <= normalized_width <= normalized_height,
            normalized_width * normalized_width <= normalized_height * normalized_height,
            normalized_height * normalized_height <= i64::MAX,
            normalized_height * normalized_height <= usize::MAX,
            forall|i2: int|
                0 <= i2 < obstacles@.len() ==> 0 <= (#[trigger] obstacles@[i2].spec_corners()).1.0
                    && 0 <= obstacles@[i2].spec_corners().1.1,
            n == obstacles@.len(),
            0 <= j <= n,
            cell_bitmap@.len() == normalized_height * normalized_height,
            cell_bitmap@ == spec_obstacles_bitmap(
                obstacles@.take(j as int),
                normalized_width as int,
                normalized_height as int,
            ),
        decreases n - j,
    {
        let points = obstacles[j].get_approximate_points();
        let up_right = points[1];
        let k = FluidCube::idx(
            up_right.0 / CELL_SIZE,
            up_right.1 / CELL_SIZE,
            normalized_width,
        );
        cell_bitmap.set(k, true);
        proof {
            assert(obstacles@.take(j + 1).drop_last() =~= obstacles@.take(j as int));
            assert(obstacles@.take(j + 1).last() == obstacles@[j as int]);
        }
        j = j + 1;
    }
    proof {
        assert(obstacles@.take(n as int) =~= obstacles@);
    }
    cell_bitmap
}

/// How many of the four neighbours of block `(cx, cy)` are alive. A neighbour
/// beyond the edge of the coarsened grid counts as dead.
pub open spec fn spec_live_neighbors(
    bitmap: Seq<bool>,
    nw: int,
    nh: int,
    cx: int,
    cy: int,
) -> int {
    (if cy > 0 && bitmap[spec_idx(cx, cy - 1, nw)] {
        1int
    } else {
        0int
    }) + (if cy < nh - 1 && bitmap[spec_idx(cx, cy + 1, nw)] {
        1int
    } else {
        0int
    }) + (if cx > 0 && bitmap[spec_idx(cx - 1, cy, nw)] {
        1int
    } else {
        0int
    }) + (if cx < nw - 1 && bitmap[spec_idx(cx + 1, cy, nw)] {
        1int
    } else {
        0int
    })
}

/// The next generation of one block: an alive block survives with two or
/// three alive neighbours, and every other block keeps its state, except that
/// a dead block with more than three alive neighbours is born. (The birth
/// threshold deliberately follows the implemented behaviour: any count above
/// three gives birth.)
pub open spec fn spec_next_gen_cell(
    bitmap: Seq<bool>,
    nw: int,
    nh: int,
    cx: int,
    cy: int,
) -> bool {
    let alive = bitmap[spec_idx(cx, cy, nw)];
    let neighbours = spec_live_neighbors(bitmap, nw, nh, cx, cy);
    if alive && !(2 <= neighbours && neighbours <= 3) {
        false
    } else if !alive && neighbours > 3 {
        true
    } else {
        alive
    }
}

/// The next generation of the whole coarsened grid, `nw` blocks a side.
pub open spec fn spec_next_generation(bitmap: Seq<bool>, nw: int) -> Seq<bool> {
    Seq::new(bitmap.len(), |k: int| spec_next_gen_cell(bitmap, nw, nw, k % nw, k / nw))
}

/// Computes the next generation of the obstacle set. By definition each
/// generation is a pure function of the previous one: the obstacles are
/// coarsened into a bitmap of alive blocks, the automaton rule is applied to
/// every block, and the new bitmap is converted back into rectangle obstacles.
pub fn game_of_life(previous_generation: &Vec<ObstaclesType>, width: i64, height: i64) -> (r: Vec<
    ObstaclesType,
>)
    requires
        width == height,
        CELL_SIZE as int <= width,
        width as int / (CELL_SIZE as int) * (CELL_SIZE as int) <= u32::MAX,
        width as int / (CELL_SIZE as int) * (width as int / (CELL_SIZE as int)) <= i64::MAX,
        width as int / (CELL_SIZE as int) * (width as int / (CELL_SIZE as int)) <= usize::MAX,
        forall|i: int|
            0 <= i < previous_generation@.len() ==> 0 <= (
            #[trigger] previous_generation@[i].spec_corners()).1.0 && 0
                <= previous_generation@[i].spec_corners().1.1,
    ensures
        r@ == spec_block_obstacles(
            spec_next_generation(
                spec_obstacles_bitmap(
                    previous_generation@,
                    width as int / (CELL_SIZE as int),
                    width as int / (CELL_SIZE as int),
                ),
                width as int / (CELL_SIZE as int),
            ),
            width as int / (CELL_SIZE as int),
            width as int / (CELL_SIZE as int) * (width as int / (CELL_SIZE as int)),
        ),
{
    let normalized_width = width / CELL_SIZE;
    let normalized_height = height / CELL_SIZE;

    // Store a bitmap indicating whether each of the blocks is active or not.
    let cell_bitmap = obstacles_to_cell_bitmap(
        previous_generation,
        normalized_width,
        normalized_height,
    );

    // Recompute every block from the old bitmap. This is the actual automaton
    // rule.
    let mut cell_bitmap_new_generation: Vec<bool> = Vec::new();
    let mut cell_x: i64 = 0;
    let mut cell_y: i64 = 0;
    let n = cell_bitmap.len();
    let mut k: usize = 0;
    while k < n && cell_y < normalized_height
        invariant
            1 <= normalized_width,
            normalized_width == normalized_height,
            normalized_width * normalized_width <= i64::MAX,
            normalized_width * normalized_width <= usize::MAX,
            n == cell_bitmap@.len(),
            n == normalized_width * normalized_width,
            0 <= k <= n,
            k == cell_y * normalized_width + cell_x,
            0 <= cell_x < normalized_width,
            0 <= cell_y <= normalized_height,
            cell_y < normalized_height || cell_x == 0,
            cell_bitmap_new_generation@.len() == k,
            forall|j: int|
                0 <= j < k ==> cell_bitmap_new_generation@[j] == spec_next_gen_cell(
                    cell_bitmap@,
                    normalized_width as int,
                    normalized_width as int,
                    j % (normalized_width as int),
                    j / (normalized_width as int),
                ),
        decreases n - k,
    {
        proof {
            lemma_fundamental_div_mod_converse(
                k as int,
                normalized_width as int,
                cell_y as int,
                cell_x as int,
            );
            assert(cell_y * normalized_width + cell_x < normalized_width * normalized_width)
                by (nonlinear_arith)
                requires
                    0 <= cell_x < normalized_width,
                    0 <= cell_y < normalized_width,
            ;
            lemma_idx_in_range(cell_x as int, cell_y - 1, normalized_width as int);
            lemma_idx_in_range(cell_x as int, cell_y + 1, normalized_width as int);
            lemma_idx_in_range(cell_x - 1, cell_y as int, normalized_width as int);
            lemma_idx_in_range(cell_x + 1, cell_y as int, normalized_width as int);
        }
        let cell_flag = cell_bitmap[k];
        let mut cell_active_neighbours: i64 = 0;
        // Count number of active neighbours of the currently inspected block.
        if cell_y > 0 && cell_bitmap[FluidCube::idx(cell_x, cell_y - 1, normalized_width)] {
            cell_active_neighbours = cell_active_neighbours + 1;
        }
        if cell_y < normalized_height - 1 && cell_bitmap[FluidCube::idx(
            cell_x,
            cell_y + 1,
            normalized_width,
        )] {
            cell_active_neighbours = cell_active_neighbours + 1;
        }
        if cell_x > 0 && cell_bitmap[FluidCube::idx(cell_x - 1, cell_y, normalized_width)] {
            cell_active_neighbours = cell_active_neighbours + 1;
        }
        if cell_x < normalized_width - 1 && cell_bitmap[FluidCube::idx(
            cell_x + 1,
            cell_y,
            normalized_width,
        )] {
            cell_active_neighbours = cell_active_neighbours + 1;
        }
        assert(cell_active_neighbours == spec_live_neighbors(
            cell_bitmap@,
            normalized_width as int,
            normalized_width as int,
            cell_x as int,
            cell_y as int,
        ));

        // Apply the automaton rules.
        let new_flag: bool = if cell_flag && !(2 <= cell_active_neighbours
            && cell_active_neighbours <= 3) {
            false
        } else if !cell_flag && cell_active_neighbours > 3 {
            true
        } else {
            cell_flag
        };
        cell_bitmap_new_generation.push(new_flag);

        // Go to next block.
        let ghost (k0, cx0, cy0) = (k as int, cell_x as int, cell_y as int);
        k = k + 1;
        cell_x = cell_x + 1;
        if cell_x >= normalized_width {
            cell_x = 0;
            cell_y = cell_y + 1;
            proof {
                assert(k0 + 1 == (cy0 + 1) * normalized_width + 0) by (nonlinear_arith)
                    requires
                        k0 == cy0 * normalized_width + cx0,
                        cx0 == normalized_width - 1,
                ;
            }
        }
    }
    proof {
        assert(k as int <= normalized_width * normalized_width) by (nonlinear_arith)
            requires
                k == cell_y * normalized_width + cell_x,
                0 <= cell_x < normalized_width,
                0 <= cell_y <= normalized_width,
                cell_y < normalized_width || cell_x == 0,
        ;
        assert(cell_bitmap_new_generation@ =~= spec_next_generation(
            cell_bitmap@,
            normalized_width as int,
        ));
    }

    // Create obstacles from the new generation's bitmap.
    let new_generation = cell_bitmap_to_obstacles(
        &cell_bitmap_new_generation,
        normalized_width,
        normalized_height,
    );
    new_generation
}

} // verus!
