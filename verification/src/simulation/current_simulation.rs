use crate::simulation::animation;
use crate::simulation::animation::CELL_SIZE;
use crate::simulation::configs::{FluidConfigs, SimulationConfigs};
use crate::simulation::fluid::{
    lemma_coord_of_idx, lemma_fresh_cells_wall_budget, lemma_idx_in_range, lemma_idx_roundtrip,
    lemma_stamped_box_adds_area, spec_idx, spec_in_box, spec_on_border, wall_count, ContainerWall,
    FluidCube,
};
use crate::simulation::obstacle::{spec_points_valid, Obstacle, ObstaclesType, Rectangle};
use vstd::arithmetic::div_mod::lemma_fundamental_div_mod;
use vstd::prelude::*;

verus! {

/// The number of coarsened blocks a side that the obstacle animation works
/// with on a `size`-cell-wide container.
pub open spec fn spec_blocks(size: int) -> int {
    size / (CELL_SIZE as int)
}

/// The obstacle set that one animation step turns a given obstacle set into.
pub open spec fn spec_animated_obstacles(obstacles: Seq<ObstaclesType>, size: int) -> Seq<
    ObstaclesType,
> {
    animation::spec_block_obstacles(
        animation::spec_next_generation(
            animation::spec_obstacles_bitmap(obstacles, spec_blocks(size), spec_blocks(size)),
            spec_blocks(size),
        ),
        spec_blocks(size),
        spec_blocks(size) * spec_blocks(size),
    )
}

/// Whether `new_cells` is `old_cells` with every cell inside some obstacle's
/// bounding box overwritten by `wall_type`, and every other cell untouched.
pub open spec fn spec_stamped(
    old_cells: Seq<ContainerWall>,
    new_cells: Seq<ContainerWall>,
    obstacles: Seq<ObstaclesType>,
    size: int,
    wall_type: ContainerWall,
) -> bool {
    forall|x: int, y: int|
        0 <= x < size && 0 <= y < size ==> new_cells[spec_idx(x, y, size)] == (if exists|i: int|
            0 <= i < obstacles.len() && spec_in_box(
                (#[trigger] obstacles[i].spec_corners()).0,
                obstacles[i].spec_corners().1,
                x,
                y,
            ) {
            wall_type
        } else {
            old_cells[spec_idx(x, y, size)]
        })
}

/// The total bounding-box area of an obstacle set.
pub open spec fn spec_areas_sum(obstacles: Seq<ObstaclesType>) -> int
    decreases obstacles.len(),
{
    if obstacles.len() == 0 {
        0
    } else {
        spec_areas_sum(obstacles.drop_last()) + (obstacles.last().spec_corners().1.0
            - obstacles.last().spec_corners().0.0) * (obstacles.last().spec_corners().1.1
            - obstacles.last().spec_corners().0.1)
    }
}

/// Whether the obstacle's bounding box keeps clear of the container's border
/// cells.
pub open spec fn spec_in_interior(obstacle: ObstaclesType, size: int) -> bool {
    &&& 1 <= obstacle.spec_corners().0.0
    &&& obstacle.spec_corners().1.0 <= size - 1
    &&& 1 <= obstacle.spec_corners().0.1
    &&& obstacle.spec_corners().1.1 <= size - 1
}

/// Whether two bounding boxes are separated along some axis, and so share no
/// cell.
pub open spec fn spec_boxes_separated(a: ObstaclesType, b: ObstaclesType) -> bool {
    ||| a.spec_corners().1.0 <= b.spec_corners().0.0
    ||| b.spec_corners().1.0 <= a.spec_corners().0.0
    ||| a.spec_corners().1.1 <= b.spec_corners().0.1
    ||| b.spec_corners().1.1 <= a.spec_corners().0.1
}

/// The fresh cell array with every box of the obstacle set stamped over it.
spec fn spec_union_stamped(
    fresh: Seq<ContainerWall>,
    obstacles: Seq<ObstaclesType>,
    size: int,
) -> Seq<ContainerWall> {
    Seq::new(
        fresh.len(),
        |k: int|
            if exists|i: int|
                0 <= i < obstacles.len() && spec_in_box(
                    (#[trigger] obstacles[i].spec_corners()).0,
                    obstacles[i].spec_corners().1,
                    k % size,
                    k / size,
                ) {
                ContainerWall::DefaultWall
            } else {
                fresh[k]
            },
    )
}

/// Stamping a set of non-overlapping interior boxes over a fresh grid leaves
/// the border walls plus exactly one wall cell per box cell.
proof fn lemma_union_stamped_count(
    fresh: Seq<ContainerWall>,
    obstacles: Seq<ObstaclesType>,
    size: int,
)
    requires
        3 <= size,
        fresh.len() == size * size,
        forall|x: int, y: int|
            0 <= x < size && 0 <= y < size ==> fresh[spec_idx(x, y, size)] == (if spec_on_border(x, y, size) {
                ContainerWall::DefaultWall
            } else {
                ContainerWall::NoWall
            }),
        forall|i: int|
            0 <= i < obstacles.len() ==> spec_points_valid(
                (#[trigger] obstacles[i].spec_corners()).0,
                obstacles[i].spec_corners().1,
                size,
            ) && spec_in_interior(obstacles[i], size),
        forall|i: int, j: int|
            0 <= i < j < obstacles.len() ==> #[trigger] spec_boxes_separated(
                obstacles[i],
                obstacles[j],
            ),
    ensures
        wall_count(spec_union_stamped(fresh, obstacles, size)) == 2 * (
        size + (size - 2)) + spec_areas_sum(obstacles),
    decreases obstacles.len(),
{
    if obstacles.len() == 0 {
        assert(spec_union_stamped(fresh, obstacles, size) =~= fresh);
        lemma_fresh_cells_wall_budget(fresh, size);
    } else {
        let previous_obstacles = obstacles.drop_last();
        lemma_union_stamped_count(fresh, previous_obstacles, size);
        let prev = spec_union_stamped(fresh, previous_obstacles, size);
        let cur = spec_union_stamped(fresh, obstacles, size);
        let last = obstacles.last();
        let down_left = last.spec_corners().0;
        let up_right = last.spec_corners().1;
        let m = previous_obstacles.len() as int;

        // The new union is the previous one with the last box stamped on.
        assert forall|x: int, y: int| 0 <= x < size && 0 <= y < size implies cur[spec_idx(
            x,
            y,
            size,
        )] == (if spec_in_box(down_left, up_right, x, y) {
            ContainerWall::DefaultWall
        } else {
            prev[spec_idx(x, y, size)]
        }) by {
            lemma_idx_in_range(x, y, size);
            lemma_idx_roundtrip(x, y, size);
            if spec_in_box(down_left, up_right, x, y) {
                assert(0 <= m < obstacles.len() && spec_in_box(
                    (obstacles[m].spec_corners()).0,
                    obstacles[m].spec_corners().1,
                    x,
                    y,
                ));
            } else {
                if exists|i: int|
                    0 <= i < obstacles.len() && spec_in_box(
                        (#[trigger] obstacles[i].spec_corners()).0,
                        obstacles[i].spec_corners().1,
                        x,
                        y,
                    ) {
                    let i = choose|i: int|
                        0 <= i < obstacles.len() && spec_in_box(
                            (#[trigger] obstacles[i].spec_corners()).0,
                            obstacles[i].spec_corners().1,
                            x,
                            y,
                        );
                    assert(i < m);
                    assert(previous_obstacles[i] == obstacles[i]);
                    assert(0 <= i < previous_obstacles.len() && spec_in_box(
                        (previous_obstacles[i].spec_corners()).0,
                        previous_obstacles[i].spec_corners().1,
                        x,
                        y,
                    ));
                }
                if exists|i: int|
                    0 <= i < previous_obstacles.len() && spec_in_box(
                        (#[trigger] previous_obstacles[i].spec_corners()).0,
                        previous_obstacles[i].spec_corners().1,
                        x,
                        y,
                    ) {
                    let i = choose|i: int|
                        0 <= i < previous_obstacles.len() && spec_in_box(
                            (#[trigger] previous_obstacles[i].spec_corners()).0,
                            previous_obstacles[i].spec_corners().1,
                            x,
                            y,
                        );
                    assert(previous_obstacles[i] == obstacles[i]);
                    assert(0 <= i < obstacles.len() && spec_in_box(
                        (obstacles[i].spec_corners()).0,
                        obstacles[i].spec_corners().1,
                        x,
                        y,
                    ));
                }
            }
        }

        // The last box overlaps no earlier box and no border cell, so in the
        // previous union its cells carry no wall.
        assert forall|x: int, y: int| spec_in_box(down_left, up_right, x, y) implies prev[spec_idx(
            x,
            y,
            size,
        )] != ContainerWall::DefaultWall by {
            assert(spec_in_interior(last, size));
            assert(0 <= x < size && 0 <= y < size);
            lemma_idx_in_range(x, y, size);
            lemma_idx_roundtrip(x, y, size);
            if exists|i: int|
                0 <= i < previous_obstacles.len() && spec_in_box(
                    (#[trigger] previous_obstacles[i].spec_corners()).0,
                    previous_obstacles[i].spec_corners().1,
                    x,
                    y,
                ) {
                let i = choose|i: int|
                    0 <= i < previous_obstacles.len() && spec_in_box(
                        (#[trigger] previous_obstacles[i].spec_corners()).0,
                        previous_obstacles[i].spec_corners().1,
                        x,
                        y,
                    );
                assert(spec_boxes_separated(obstacles[i], obstacles[m]));
                assert(false);
            }
            assert(!spec_on_border(x, y, size));
        }

        lemma_stamped_box_adds_area(prev, cur, down_left, up_right, size);
    }
}

/// Stamping an obstacle set onto a grid and then un-stamping the same set
/// restores the grid exactly, provided no stamped cell carried a wall of its
/// own before: the next frame starts from a clean base.
pub proof fn lemma_stamp_unstamp_roundtrip(
    before: Seq<ContainerWall>,
    drawn: Seq<ContainerWall>,
    undrawn: Seq<ContainerWall>,
    obstacles: Seq<ObstaclesType>,
    size: int,
)
    requires
        3 <= size,
        before.len() == size * size,
        drawn.len() == size * size,
        undrawn.len() == size * size,
        spec_stamped(before, drawn, obstacles, size, ContainerWall::DefaultWall),
        spec_stamped(drawn, undrawn, obstacles, size, ContainerWall::NoWall),
        forall|x: int, y: int|
            0 <= x < size && 0 <= y < size && (exists|i: int|
                0 <= i < obstacles.len() && spec_in_box(
                    (#[trigger] obstacles[i].spec_corners()).0,
                    obstacles[i].spec_corners().1,
                    x,
                    y,
                )) ==> before[spec_idx(x, y, size)] == ContainerWall::NoWall,
    ensures
        undrawn =~= before,
{
    assert(size * size >= 3 * size) by (nonlinear_arith)
        requires
            3 <= size,
    ;
    assert forall|k: int| 0 <= k < undrawn.len() implies undrawn[k] == before[k] by {
        lemma_coord_of_idx(k, size);
        let x = k % size;
        let y = k / size;
        assert(drawn[spec_idx(x, y, size)] == (if exists|i: int|
            0 <= i < obstacles.len() && spec_in_box(
                (#[trigger] obstacles[i].spec_corners()).0,
                obstacles[i].spec_corners().1,
                x,
                y,
            ) {
            ContainerWall::DefaultWall
        } else {
            before[spec_idx(x, y, size)]
        }));
    }
}

/// The default-run wall budget: on a fresh border-walled grid, stamping a set
/// of obstacles that lie strictly inside the interior and do not overlap one
/// another leaves exactly the closed-form perimeter `2 * (size + (size - 2))`
/// of border walls, plus the bounding-box area of every stamped obstacle —
/// for any grid size of at least 3.
pub proof fn lemma_wall_budget_with_obstacles(
    old_cube: FluidCube,
    new_cube: FluidCube,
    obstacles: Seq<ObstaclesType>,
)
    requires
        old_cube.wf(),
        old_cube.is_fresh_border_grid(),
        new_cube.size == old_cube.size,
        new_cube.cells_type@.len() == old_cube.cells_type@.len(),
        forall|i: int|
            0 <= i < obstacles.len() ==> spec_points_valid(
                (#[trigger] obstacles[i].spec_corners()).0,
                obstacles[i].spec_corners().1,
                old_cube.size as int,
            ) && spec_in_interior(obstacles[i], old_cube.size as int),
        forall|i: int, j: int|
            0 <= i < j < obstacles.len() ==> #[trigger] spec_boxes_separated(
                obstacles[i],
                obstacles[j],
            ),
        spec_stamped(
            old_cube.cells_type@,
            new_cube.cells_type@,
            obstacles,
            old_cube.size as int,
            ContainerWall::DefaultWall,
        ),
    ensures
        wall_count(new_cube.cells_type@) == 2 * (old_cube.size + (
        old_cube.size - 2)) + spec_areas_sum(obstacles),
{
    let size = old_cube.size as int;
    let union = spec_union_stamped(old_cube.cells_type@, obstacles, size);
    assert forall|k: int| 0 <= k < new_cube.cells_type@.len() implies new_cube.cells_type@[k]
        == union[k] by {
        assert(size * size >= 3 * size) by (nonlinear_arith)
            requires
                3 <= size,
        ;
        lemma_coord_of_idx(k, size);
        let x = k % size;
        let y = k / size;
        assert(new_cube.cells_type@[spec_idx(x, y, size)] == (if exists|i: int|
            0 <= i < obstacles.len() && spec_in_box(
                (#[trigger] obstacles[i].spec_corners()).0,
                obstacles[i].spec_corners().1,
                x,
                y,
            ) {
            ContainerWall::DefaultWall
        } else {
            old_cube.cells_type@[spec_idx(x, y, size)]
        }));
    }
    assert(new_cube.cells_type@ =~= union);
    lemma_union_stamped_count(old_cube.cells_type@, obstacles, size);
}

/// Every obstacle that one animation step yields is valid for the container
/// the animation was coarsened from.
proof fn lemma_block_obstacles_valid(bitmap: Seq<bool>, nw: int, k: int)
    ensures
        forall|i: int|
            0 <= i < animation::spec_block_obstacles(bitmap, nw, k).len() ==> spec_points_valid(
                (#[trigger] animation::spec_block_obstacles(bitmap, nw, k)[i].spec_corners()).0,
                animation::spec_block_obstacles(bitmap, nw, k)[i].spec_corners().1,
                nw * (CELL_SIZE as int),
            ),
    decreases k,
{
    if k > 0 {
        lemma_block_obstacles_valid(bitmap, nw, k - 1);
        let prev = animation::spec_block_obstacles(bitmap, nw, k - 1);
        let cur = animation::spec_block_obstacles(bitmap, nw, k);
        assert forall|i: int| 0 <= i < cur.len() implies spec_points_valid(
            (#[trigger] cur[i].spec_corners()).0,
            cur[i].spec_corners().1,
            nw * (CELL_SIZE as int),
        ) by {
            if i < prev.len() {
                assert(cur[i] == prev[i]);
                assert(spec_points_valid(
                    (prev[i].spec_corners()).0,
                    prev[i].spec_corners().1,
                    nw * (CELL_SIZE as int),
                ));
            }
        }
    }
}

/// Performs the simulation of the fluid, frame by frame. Each frame follows
/// the same state machine: the obstacles are (re)computed and stamped onto
/// the grid, the numeric integrator advances the fluid through the stamped
/// grid, the finished frame is emitted to the rendering consumer, and the
/// obstacles are un-stamped so that the next frame starts from a clean base.
#[derive(Clone)]
pub struct CurrentSimulation {
    /// The wall-classification grid of the fluid in the current simulation.
    pub fluid: FluidCube,

    /// Fluid configurations for the run. The configurations are not changed
    /// while the fluid is being simulated.
    pub fluid_configs: FluidConfigs,

    /// Simulation configurations for the run. The configurations are not
    /// changed while the fluid is being simulated.
    pub simulation_configs: SimulationConfigs,

    /// Animate obstacles with the Game of Life algorithm.
    pub animate_obstacles_using_game_of_life: bool,

    /// Collection of all the obstacles. The fluid's behaviour is updated to
    /// correspond to them once per frame, via [`CurrentSimulation::draw_obstacles`].
    pub obstacles: Vec<ObstaclesType>,

    /// The number of the next frame to emit; frames are numbered from zero.
    pub frame_number: i64,

    /// The history of emitted frame numbers, kept to state the ordering
    /// guarantee of a run.
    pub emitted: Ghost<Seq<i64>>,
}

impl CurrentSimulation {
    /// The number of the next frame to emit.
    pub open spec fn spec_frame_number(&self) -> int {
        self.frame_number as int
    }

    /// The frame numbers emitted so far, oldest first.
    pub open spec fn emitted_frames(&self) -> Seq<i64> {
        self.emitted@
    }

    /// Every obstacle of the set lies inside the container.
    pub open spec fn obstacles_wf(&self) -> bool {
        forall|i: int|
            0 <= i < self.obstacles@.len() ==> spec_points_valid(
                (#[trigger] self.obstacles@[i].spec_corners()).0,
                self.obstacles@[i].spec_corners().1,
                self.simulation_configs.size as int,
            )
    }

    /// The grid matches the configured container, the obstacles lie inside
    /// it, and the emitted history is exactly the ascending run of frame
    /// numbers below the next one.
    pub open spec fn wf(&self) -> bool {
        &&& self.simulation_configs.wf()
        &&& self.fluid.wf()
        &&& self.fluid.size == self.simulation_configs.size
        &&& self.obstacles_wf()
        &&& 0 <= self.spec_frame_number() <= self.simulation_configs.frames
        &&& self.emitted_frames() == Seq::new(
            self.spec_frame_number() as nat,
            |i: int| i as i64,
        )
    }

    /// A simulation over the given configurations and obstacle set, at the
    /// start of its run: a fresh border-walled grid and no frame emitted yet.
    pub fn new(
        fluid_configs: FluidConfigs,
        simulation_configs: SimulationConfigs,
        obstacles: Vec<ObstaclesType>,
        animate_obstacles_using_game_of_life: bool,
    ) -> (r: CurrentSimulation)
        requires
            simulation_configs.wf(),
            forall|i: int|
                0 <= i < obstacles@.len() ==> spec_points_valid(
                    (#[trigger] obstacles@[i].spec_corners()).0,
                    obstacles@[i].spec_corners().1,
                    simulation_configs.size as int,
                ),
        ensures
            r.wf(),
            r.fluid.is_fresh_border_grid(),
            r.fluid_configs == fluid_configs,
            r.simulation_configs == simulation_configs,
            r.obstacles == obstacles,
            r.animate_obstacles_using_game_of_life == animate_obstacles_using_game_of_life,
            r.spec_frame_number() == 0,
            r.emitted_frames() == Seq::<i64>::empty(),
    {
        let fluid = FluidCube::new(simulation_configs.size);
        let r = CurrentSimulation {
            fluid,
            fluid_configs,
            simulation_configs,
            animate_obstacles_using_game_of_life,
            obstacles,
            frame_number: 0,
            emitted: Ghost(Seq::empty()),
        };
        proof {
            assert(r.emitted_frames() =~= Seq::new(0nat, |i: int| i as i64));
        }
        r
    }

    /// Whether every frame of the run has been emitted.
    pub fn is_done(&self) -> (r: bool)
        ensures
            r == (self.spec_frame_number() == self.simulation_configs.frames),
    {
        self.frame_number == self.simulation_configs.frames
    }

    /// When the obstacle animation is on and the obstacle set has run low,
    /// reseeds it with randomly drawn blocks of the coarsened grid. Of the
    /// drawn set nothing is promised beyond its validity: the blocks come
    /// from the random generator.
    pub fn check_animation_obstacles(&mut self)
        requires
            old(self).wf(),
            old(self).animate_obstacles_using_game_of_life ==> CELL_SIZE
                <= old(self).simulation_configs.size,
        ensures
            final(self).wf(),
            final(self).fluid == old(self).fluid,
            final(self).fluid_configs == old(self).fluid_configs,
            final(self).simulation_configs == old(self).simulation_configs,
            final(self).animate_obstacles_using_game_of_life == old(
                self,
            ).animate_obstacles_using_game_of_life,
            final(self).spec_frame_number() == old(self).spec_frame_number(),
            final(self).emitted_frames() == old(self).emitted_frames(),
            !(old(self).animate_obstacles_using_game_of_life && old(self).obstacles@.len() < 20)
                ==> final(self).obstacles == old(self).obstacles,
    {
        let min_num_obstacles_always_alive: usize = 20;
        if self.animate_obstacles_using_game_of_life && self.obstacles.len()
            < min_num_obstacles_always_alive {
            let size: i64 = self.simulation_configs.size as i64;
            proof {
                lemma_container_blocks_bounds(size as int);
            }
            let normalized_width = animation::normalized_width(size);
            let normalized_height = animation::normalized_height(size);
            let bitmap = animation::random_cell_bitmap(size, size);
            let obstacles = animation::cell_bitmap_to_obstacles(
                &bitmap,
                normalized_width,
                normalized_height,
            );
            proof {
                lemma_block_obstacles_valid(
                    bitmap@,
                    spec_blocks(size as int),
                    if bitmap@.len() < spec_blocks(size as int) * spec_blocks(size as int) {
                        bitmap@.len() as int
                    } else {
                        spec_blocks(size as int) * spec_blocks(size as int)
                    },
                );
            }
            self.obstacles = obstacles;
        }
    }

    /// Stamps every obstacle's bounding box onto the grid with the given wall
    /// classification, leaving every cell outside the boxes untouched.
    fn stamp_obstacles(&mut self, wall_type: ContainerWall)
        requires
            old(self).wf(),
        ensures
            final(self).wf(),
            final(self).fluid.size == old(self).fluid.size,
            final(self).fluid_configs == old(self).fluid_configs,
            final(self).simulation_configs == old(self).simulation_configs,
            final(self).animate_obstacles_using_game_of_life == old(
                self,
            ).animate_obstacles_using_game_of_life,
            final(self).obstacles == old(self).obstacles,
            final(self).frame_number == old(self).frame_number,
            final(self).emitted == old(self).emitted,
            spec_stamped(
                old(self).fluid.cells_type@,
                final(self).fluid.cells_type@,
                old(self).obstacles@,
                old(self).simulation_configs.size as int,
                wall_type,
            ),
    {
        let ghost size = old(self).simulation_configs.size as int;
        let ghost initial_cells = old(self).fluid.cells_type@;
        let n = self.obstacles.len();
        let mut j: usize = 0;
        while j < n
            invariant
                0 <= j <= n,
                n == self.obstacles@.len(),
                self.wf(),
                self.fluid.size == old(self).fluid.size,
                self.fluid_configs == old(self).fluid_configs,
                self.simulation_configs == old(self).simulation_configs,
                self.animate_obstacles_using_game_of_life == old(
                    self,
                ).animate_obstacles_using_game_of_life,
                self.obstacles == old(self).obstacles,
                self.frame_number == old(self).frame_number,
                self.emitted == old(self).emitted,
                size == old(self).simulation_configs.size as int,
                initial_cells == old(self).fluid.cells_type@,
                forall|x: int, y: int|
                    0 <= x < size && 0 <= y < size ==> self.fluid.cells_type@[spec_idx(x, y, size)]
                        == (if exists|i: int|
                        0 <= i < j && spec_in_box(
                            (#[trigger] self.obstacles@[i].spec_corners()).0,
                            self.obstacles@[i].spec_corners().1,
                            x,
                            y,
                        ) {
                        wall_type
                    } else {
                        initial_cells[spec_idx(x, y, size)]
                    }),
            decreases n - j,
        {
            let obstacle = self.obstacles[j];
            self.fluid.fill_obstacle(&obstacle, wall_type);
            proof {
                assert forall|x: int, y: int|
                    0 <= x < size && 0 <= y < size implies self.fluid.cells_type@[spec_idx(
                    x,
                    y,
                    size,
                )] == (if exists|i: int|
                    0 <= i < j + 1 && spec_in_box(
                        (#[trigger] self.obstacles@[i].spec_corners()).0,
                        self.obstacles@[i].spec_corners().1,
                        x,
                        y,
                    ) {
                    wall_type
                } else {
                    initial_cells[spec_idx(x, y, size)]
                }) by {
                    if spec_in_box(
                        (self.obstacles@[j as int].spec_corners()).0,
                        self.obstacles@[j as int].spec_corners().1,
                        x,
                        y,
                    ) {
                        assert(0 <= j < j + 1 && spec_in_box(
                            (self.obstacles@[j as int].spec_corners()).0,
                            self.obstacles@[j as int].spec_corners().1,
                            x,
                            y,
                        ));
                    }
                }
            }
            j = j + 1;
        }
    }

    /// Recomputes the obstacle set — animated, if the animation is on — and
    /// stamps every obstacle onto the grid as a wall, so the following solver
    /// step treats the obstacle cells as occluded.
    pub fn draw_obstacles(&mut self)
        requires
            old(self).wf(),
            old(self).animate_obstacles_using_game_of_life ==> CELL_SIZE as int <= old(
                self,
            ).simulation_configs.size,
        ensures
            final(self).wf(),
            final(self).fluid.size == old(self).fluid.size,
            final(self).fluid_configs == old(self).fluid_configs,
            final(self).simulation_configs == old(self).simulation_configs,
            final(self).animate_obstacles_using_game_of_life == old(
                self,
            ).animate_obstacles_using_game_of_life,
            final(self).frame_number == old(self).frame_number,
            final(self).emitted == old(self).emitted,
            final(self).obstacles@ == (if old(self).animate_obstacles_using_game_of_life {
                spec_animated_obstacles(
                    old(self).obstacles@,
                    old(self).simulation_configs.size as int,
                )
            } else {
                old(self).obstacles@
            }),
            spec_stamped(
                old(self).fluid.cells_type@,
                final(self).fluid.cells_type@,
                final(self).obstacles@,
                old(self).simulation_configs.size as int,
                ContainerWall::DefaultWall,
            ),
    {
        if self.animate_obstacles_using_game_of_life {
            let size: i64 = self.simulation_configs.size as i64;
            proof {
                lemma_container_blocks_bounds(size as int);
                assert forall|i: int| 0 <= i < self.obstacles@.len() implies 0 <= (
                #[trigger] self.obstacles@[i].spec_corners()).1.0 && 0
                    <= self.obstacles@[i].spec_corners().1.1 by {
                    assert(spec_points_valid(
                        (self.obstacles@[i].spec_corners()).0,
                        self.obstacles@[i].spec_corners().1,
                        self.simulation_configs.size as int,
                    ));
                }
            }
            let new_obstacles = animation::game_of_life(&self.obstacles, size, size);
            proof {
                let nw = spec_blocks(size as int);
                lemma_block_obstacles_valid(
                    animation::spec_next_generation(
                        animation::spec_obstacles_bitmap(self.obstacles@, nw, nw),
                        nw,
                    ),
                    nw,
                    nw * nw,
                );
            }
            self.obstacles = new_obstacles;
        }
        self.stamp_obstacles(ContainerWall::DefaultWall);
    }

    /// Un-stamps every obstacle's bounding box from the grid, so the next
    /// frame's animation starts from a clean base.
    pub fn undraw_obstacles(&mut self)
        requires
            old(self).wf(),
        ensures
            final(self).wf(),
            final(self).fluid.size == old(self).fluid.size,
            final(self).fluid_configs == old(self).fluid_configs,
            final(self).simulation_configs == old(self).simulation_configs,
            final(self).animate_obstacles_using_game_of_life == old(
                self,
            ).animate_obstacles_using_game_of_life,
            final(self).obstacles == old(self).obstacles,
            final(self).frame_number == old(self).frame_number,
            final(self).emitted == old(self).emitted,
            spec_stamped(
                old(self).fluid.cells_type@,
                final(self).fluid.cells_type@,
                old(self).obstacles@,
                old(self).simulation_configs.size as int,
                ContainerWall::NoWall,
            ),
    {
        self.stamp_obstacles(ContainerWall::NoWall);
    }

    /// After altering the obstacles list, refresh the fluid's configuration
    /// regarding its obstacles: every obstacle's bounding box is stamped onto
    /// the grid as a wall, without animating the set.
    pub fn mark_fluid_obstacles(&mut self)
        requires
            old(self).wf(),
        ensures
            final(self).wf(),
            final(self).fluid.size == old(self).fluid.size,
            final(self).fluid_configs == old(self).fluid_configs,
            final(self).simulation_configs == old(self).simulation_configs,
            final(self).animate_obstacles_using_game_of_life == old(
                self,
            ).animate_obstacles_using_game_of_life,
            final(self).obstacles == old(self).obstacles,
            final(self).frame_number == old(self).frame_number,
            final(self).emitted == old(self).emitted,
            spec_stamped(
                old(self).fluid.cells_type@,
                final(self).fluid.cells_type@,
                old(self).obstacles@,
                old(self).simulation_configs.size as int,
                ContainerWall::DefaultWall,
            ),
    {
        self.stamp_obstacles(ContainerWall::DefaultWall);
    }

    /// Emits the number of the frame that has just been simulated and
    /// advances to the next one. Within one run the emitted numbers are
    /// consecutive: the k-th call returns k.
    pub fn emit_frame(&mut self) -> (frame: i64)
        requires
            old(self).wf(),
            old(self).spec_frame_number() < old(self).simulation_configs.frames,
        ensures
            final(self).wf(),
            frame == old(self).spec_frame_number(),
            final(self).spec_frame_number() == frame + 1,
            final(self).emitted_frames() == old(self).emitted_frames().push(frame),
            final(self).fluid == old(self).fluid,
            final(self).fluid_configs == old(self).fluid_configs,
            final(self).simulation_configs == old(self).simulation_configs,
            final(self).animate_obstacles_using_game_of_life == old(
                self,
            ).animate_obstacles_using_game_of_life,
            final(self).obstacles == old(self).obstacles,
    {
        let frame = self.frame_number;
        self.frame_number = self.frame_number + 1;
        self.emitted = Ghost(self.emitted@.push(frame));
        proof {
            assert(self.emitted@ =~= Seq::new(self.frame_number as nat, |i: int| i as i64));
        }
        frame
    }
}

impl Default for CurrentSimulation {
    /// The default simulation: default configurations, the default rectangle
    /// obstacle, and no obstacle animation.
    fn default() -> (r: CurrentSimulation)
        ensures
            r.wf(),
            r.fluid.is_fresh_border_grid(),
            r.simulation_configs == (SimulationConfigs { frames: 16i64, size: 128u32 }),
            r.fluid_configs.has_perlin_noise == true,
            r.animate_obstacles_using_game_of_life == false,
            r.obstacles@ == seq![
                ObstaclesType::Rectangle(
                    Rectangle {
                        down_left_point: (118i64, 118i64),
                        up_right_point: (127i64, 127i64),
                    },
                ),
            ],
            r.spec_frame_number() == 0,
            r.emitted_frames() == Seq::<i64>::empty(),
    {
        let mut obstacles: Vec<ObstaclesType> = Vec::new();
        obstacles.push(ObstaclesType::Rectangle(Rectangle::default()));
        CurrentSimulation::new(
            FluidConfigs::default(),
            SimulationConfigs::default(),
            obstacles,
            false,
        )
    }
}

/// Frame ordering: at any point of a run the emitted frame numbers are
/// exactly `0, 1, ..., frame_number - 1`, in that order — strictly
/// increasing, no duplicates, no gaps — and once the run is done there are
/// exactly `frames` of them.
pub proof fn lemma_frame_ordering(sim: CurrentSimulation)
    requires
        sim.wf(),
    ensures
        sim.emitted_frames().len() == sim.spec_frame_number(),
        forall|i: int| 0 <= i < sim.emitted_frames().len() ==> sim.emitted_frames()[i] == i,
        forall|i: int, j: int|
            0 <= i < j < sim.emitted_frames().len() ==> sim.emitted_frames()[i]
                < sim.emitted_frames()[j],
        sim.spec_frame_number() == sim.simulation_configs.frames ==> sim.emitted_frames().len()
            == sim.simulation_configs.frames,
{
}

/// On a container of at least one block, the coarsened block grid fits back
/// into the container and into every machine bound the animation needs.
proof fn lemma_container_blocks_bounds(size: int)
    requires
        CELL_SIZE as int <= size,
        size * size <= u32::MAX,
    ensures
        1 <= spec_blocks(size),
        spec_blocks(size) * (CELL_SIZE as int) <= size,
        spec_blocks(size) * (CELL_SIZE as int) <= u32::MAX,
        spec_blocks(size) * spec_blocks(size) <= i64::MAX,
        spec_blocks(size) * spec_blocks(size) <= usize::MAX,
        size / (CELL_SIZE as int) * (size as int) <= i64::MAX,
        size / (CELL_SIZE as int) * (size as int) / (CELL_SIZE as int) <= usize::MAX,
{
    let nw = spec_blocks(size);
    let c = CELL_SIZE as int;
    lemma_fundamental_div_mod(size, c);
    vstd::arithmetic::div_mod::lemma_mod_division_less_than_divisor(size, c);
    assert(size == c * nw + size % c);
    assert(nw * c == c * nw) by (nonlinear_arith);
    assert(1 <= nw && nw <= size) by (nonlinear_arith)
        requires
            size == c * nw + size % c,
            0 <= size % c < c,
            c <= size,
            c == 8,
    ;
    assert(size <= size * size) by (nonlinear_arith)
        requires
            1 <= size,
    ;
    assert(nw * nw <= size * size && nw * size <= size * size) by (nonlinear_arith)
        requires
            1 <= nw <= size,
    ;
    assert(nw * size / c <= nw * size) by (nonlinear_arith)
        requires
            0 <= nw * size,
            c == 8,
    ;
}

} // verus!
