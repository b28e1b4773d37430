use crate::simulation::configs::{Color32, FluidConfigs, SimulationConfigs};
use crate::simulation::current_simulation::CurrentSimulation;
use crate::simulation::fluid::FluidCube;
use crate::simulation::obstacle::{spec_points_valid, Obstacle, ObstaclesType};
use crate::simulation::renderer_helpers::RenderingListener;
use crate::widgets::{ObstacleLayout, SettingType};
use vstd::prelude::*;
use vstd::slice::slice_index_get;

verus! {

/// The fluid configurations that a settings pass leaves buffered: the value
/// carried by the last fluid panel of the pass, or the current one where the
/// pass holds none.
pub open spec fn spec_buffered_fluid(settings: Seq<SettingType>, current: FluidConfigs) -> FluidConfigs
    decreases settings.len(),
{
    if settings.len() == 0 {
        current
    } else {
        match settings.last() {
            SettingType::Fluid(fluid_widget) => fluid_widget.fluid_configs,
            _ => spec_buffered_fluid(settings.drop_last(), current),
        }
    }
}

/// The simulation configurations that a settings pass leaves buffered.
pub open spec fn spec_buffered_simulation(
    settings: Seq<SettingType>,
    current: SimulationConfigs,
) -> SimulationConfigs
    decreases settings.len(),
{
    if settings.len() == 0 {
        current
    } else {
        match settings.last() {
            SettingType::Simulation(simulation_widget) => simulation_widget.simulation_configs,
            _ => spec_buffered_simulation(settings.drop_last(), current),
        }
    }
}

/// The obstacle set that a settings pass leaves buffered: the obstacles of
/// the last obstacle panel of the pass, stripped of their panel entries.
pub open spec fn spec_buffered_obstacles(
    settings: Seq<SettingType>,
    current: Seq<ObstaclesType>,
) -> Seq<ObstaclesType>
    decreases settings.len(),
{
    if settings.len() == 0 {
        current
    } else {
        match settings.last() {
            SettingType::Obstacle(obstacle_widget) => obstacle_widget.obstacles@.map_values(
                |layout: ObstacleLayout| layout.obstacle,
            ),
            _ => spec_buffered_obstacles(settings.drop_last(), current),
        }
    }
}

/// The obstacle color that a settings pass leaves: unlike the other settings
/// it is not buffered for the next run but applied at once.
pub open spec fn spec_obstacles_color(settings: Seq<SettingType>, current: Color32) -> Color32
    decreases settings.len(),
{
    if settings.len() == 0 {
        current
    } else {
        match settings.last() {
            SettingType::Obstacle(obstacle_widget) => obstacle_widget.color,
            _ => spec_obstacles_color(settings.drop_last(), current),
        }
    }
}

/// The output directory name that a settings pass leaves buffered.
pub open spec fn spec_buffered_dir(settings: Seq<SettingType>, current: Seq<char>) -> Seq<char>
    decreases settings.len(),
{
    if settings.len() == 0 {
        current
    } else {
        match settings.last() {
            SettingType::Viewport(viewport_widget) => viewport_widget.save_into_dir@,
            _ => spec_buffered_dir(settings.drop_last(), current),
        }
    }
}

/// Utility for visualization of and interaction with the fluid simulation.
///
/// Between runs the caller freely updates the `next_*` configurations through
/// [`Renderer::update_configs`]; they take effect only when the next run is
/// prepared, never retroactively on a live one.
pub struct Renderer {
    /// The wall-classification grid of the fluid that the renderer owns.
    pub fluid: FluidCube,

    /// Buffered fluid configurations for the next run. The configurations of
    /// the fluid are not changed while the fluid is being simulated.
    pub next_fluid_configs: FluidConfigs,

    /// Buffered simulation configurations for the next run.
    pub next_simulation_configs: SimulationConfigs,

    /// The directory in which the rendered images that result from the
    /// simulation are stored.
    pub save_into_dir: String,

    /// Buffered name of the saving directory for the next run.
    pub next_save_into_dir: String,

    /// The color of all obstacles. Obstacles cannot be set individual colors.
    pub obstacles_color: Color32,

    /// Collection of all the obstacles of the live run.
    pub obstacles: Vec<ObstaclesType>,

    /// Buffered obstacles for the next run.
    pub next_obstacles: Vec<ObstaclesType>,

    /// Contains the state of the current simulation.
    pub current_simulation: CurrentSimulation,

    /// Listens for the current simulation's signal, in order to render the
    /// simulation into an image.
    pub rendering_listener: RenderingListener,
}

impl Renderer {
    /// The live parts carry their own invariants; the buffered parts are
    /// validated when the next run is prepared.
    pub open spec fn wf(&self) -> bool {
        &&& self.fluid.wf()
        &&& self.current_simulation.wf()
    }

    /// Whether the buffered configurations describe a runnable simulation:
    /// the configurations are well-formed and every buffered obstacle lies
    /// inside the buffered container.
    pub open spec fn spec_next_run_valid(&self) -> bool {
        &&& self.next_simulation_configs.wf()
        &&& forall|i: int|
            0 <= i < self.next_obstacles@.len() ==> spec_points_valid(
                (#[trigger] self.next_obstacles@[i].spec_corners()).0,
                self.next_obstacles@[i].spec_corners().1,
                self.next_simulation_configs.size as int,
            )
    }

    /// Checks that the buffered configurations describe a runnable
    /// simulation, so a caller can validate them before preparing the run.
    pub fn next_run_valid(&self) -> (r: bool)
        ensures
            r == self.spec_next_run_valid(),
    {
        let side: u64 = self.next_simulation_configs.size as u64;
        proof {
            assert(side * side < 0x10000000000000000) by (nonlinear_arith)
                requires
                    side <= u32::MAX,
            ;
        }
        if !(0 < self.next_simulation_configs.frames && 3 <= self.next_simulation_configs.size
            && side * side <= u32::MAX as u64) {
            return false;
        }
        let n = self.next_obstacles.len();
        let mut i: usize = 0;
        while i < n
            invariant
                0 <= i <= n,
                n == self.next_obstacles@.len(),
                self.next_simulation_configs.wf(),
                forall|j: int|
                    0 <= j < i ==> spec_points_valid(
                        (#[trigger] self.next_obstacles@[j].spec_corners()).0,
                        self.next_obstacles@[j].spec_corners().1,
                        self.next_simulation_configs.size as int,
                    ),
            decreases n - i,
        {
            let valid = match &self.next_obstacles[i] {
                ObstaclesType::Rectangle(rectangle) => rectangle.are_all_points_valid(
                    self.next_simulation_configs.size as i64,
                ),
            };
            if !valid {
                proof {
                    assert(!spec_points_valid(
                        (self.next_obstacles@[i as int].spec_corners()).0,
                        self.next_obstacles@[i as int].spec_corners().1,
                        self.next_simulation_configs.size as int,
                    ));
                }
                return false;
            }
            i = i + 1;
        }
        true
    }

    /// Creates a new Renderer around the given configurations: the buffered
    /// state starts as a copy of them, with an empty obstacle set.
    pub fn new(
        fluid_configs: FluidConfigs,
        simulation_configs: SimulationConfigs,
        obstacles_color: Color32,
        images_dir: String,
    ) -> (r: Renderer)
        requires
            simulation_configs.wf(),
        ensures
            r.wf(),
            r.next_fluid_configs == fluid_configs,
            r.next_simulation_configs == simulation_configs,
            r.obstacles_color == obstacles_color,
            r.save_into_dir@ == images_dir@,
            r.next_save_into_dir@ == images_dir@,
            r.obstacles@.len() == 0,
            r.next_obstacles@.len() == 0,
            r.spec_next_run_valid(),
    {
        let fluid = FluidCube::new(simulation_configs.size);
        Renderer {
            fluid,
            next_fluid_configs: fluid_configs,
            next_simulation_configs: simulation_configs,
            save_into_dir: images_dir.clone(),
            next_save_into_dir: images_dir,
            obstacles_color,
            obstacles: Vec::new(),
            next_obstacles: Vec::new(),
            current_simulation: CurrentSimulation::default(),
            rendering_listener: RenderingListener::default(),
        }
    }

    /// Updates the configurations for the next simulation. During a run the
    /// new configurations are saved in the renderer, but will only be applied
    /// at the beginning of the next run — except the obstacle color, which
    /// takes effect at once.
    pub fn update_configs(&mut self, settings_menu: &[SettingType])
        ensures
            final(self).fluid == old(self).fluid,
            final(self).obstacles == old(self).obstacles,
            final(self).save_into_dir == old(self).save_into_dir,
            final(self).current_simulation == old(self).current_simulation,
            final(self).rendering_listener == old(self).rendering_listener,
            final(self).next_fluid_configs == spec_buffered_fluid(
                settings_menu@,
                old(self).next_fluid_configs,
            ),
            final(self).next_simulation_configs == spec_buffered_simulation(
                settings_menu@,
                old(self).next_simulation_configs,
            ),
            final(self).next_obstacles@ == spec_buffered_obstacles(
                settings_menu@,
                old(self).next_obstacles@,
            ),
            final(self).obstacles_color == spec_obstacles_color(
                settings_menu@,
                old(self).obstacles_color,
            ),
            final(self).next_save_into_dir@ == spec_buffered_dir(
                settings_menu@,
                old(self).next_save_into_dir@,
            ),
    {
        let n = settings_menu.len();
        let mut i: usize = 0;
        while i < n
            invariant
                0 <= i <= n,
                n == settings_menu@.len(),
                self.fluid == old(self).fluid,
                self.obstacles == old(self).obstacles,
                self.save_into_dir == old(self).save_into_dir,
                self.current_simulation == old(self).current_simulation,
                self.rendering_listener == old(self).rendering_listener,
                self.next_fluid_configs == spec_buffered_fluid(
                    settings_menu@.take(i as int),
                    old(self).next_fluid_configs,
                ),
                self.next_simulation_configs == spec_buffered_simulation(
                    settings_menu@.take(i as int),
                    old(self).next_simulation_configs,
                ),
                self.next_obstacles@ == spec_buffered_obstacles(
                    settings_menu@.take(i as int),
                    old(self).next_obstacles@,
                ),
                self.obstacles_color == spec_obstacles_color(
                    settings_menu@.take(i as int),
                    old(self).obstacles_color,
                ),
                self.next_save_into_dir@ == spec_buffered_dir(
                    settings_menu@.take(i as int),
                    old(self).next_save_into_dir@,
                ),
            decreases n - i,
        {
            let setting = slice_index_get(settings_menu, i);
            match setting {
                SettingType::Fluid(fluid_widget) => {
                    self.next_fluid_configs = fluid_widget.fluid_configs;
                },
                SettingType::Simulation(simulation_widget) => {
                    self.next_simulation_configs = simulation_widget.simulation_configs;
                },
                SettingType::Obstacle(obstacle_widget) => {
                    let m = obstacle_widget.obstacles.len();
                    let mut picked: Vec<ObstaclesType> = Vec::new();
                    let mut k: usize = 0;
                    while k < m
                        invariant
                            0 <= k <= m,
                            m == obstacle_widget.obstacles@.len(),
                            picked@.len() == k,
                            forall|a: int|
                                0 <= a < k ==> picked@[a]
                                    == obstacle_widget.obstacles@[a].obstacle,
                        decreases m - k,
                    {
                        let layout = &obstacle_widget.obstacles[k];
                        picked.push(layout.obstacle);
                        k = k + 1;
                    }
                    proof {
                        assert(picked@ =~= obstacle_widget.obstacles@.map_values(
                            |layout: ObstacleLayout| layout.obstacle,
                        ));
                    }
                    self.next_obstacles = picked;
                    self.obstacles_color = obstacle_widget.color;
                },
                SettingType::Viewport(viewport_widget) => {
                    self.next_save_into_dir = viewport_widget.save_into_dir.clone();
                },
            }
            proof {
                assert(settings_menu@.take(i + 1).drop_last() =~= settings_menu@.take(i as int));
                assert(settings_menu@.take(i + 1).last() == settings_menu@[i as int]);
            }
            i = i + 1;
        }
        proof {
            assert(settings_menu@.take(n as int) =~= settings_menu@);
        }
    }

    /// Prepares the next simulation from the buffered configurations: a fresh
    /// simulation state over a fresh border-walled grid, and the listener
    /// retargeted at the buffered output directory. The caller validates the
    /// buffered configurations first, via [`Renderer::next_run_valid`].
    pub fn prepare_simulation(&mut self)
        requires
            old(self).spec_next_run_valid(),
        ensures
            final(self).fluid == old(self).fluid,
            final(self).obstacles == old(self).obstacles,
            final(self).save_into_dir == old(self).save_into_dir,
            final(self).obstacles_color == old(self).obstacles_color,
            final(self).next_fluid_configs == old(self).next_fluid_configs,
            final(self).next_simulation_configs == old(self).next_simulation_configs,
            final(self).next_obstacles == old(self).next_obstacles,
            final(self).next_save_into_dir == old(self).next_save_into_dir,
            final(self).current_simulation.wf(),
            final(self).current_simulation.fluid.is_fresh_border_grid(),
            final(self).current_simulation.fluid_configs == old(self).next_fluid_configs,
            final(self).current_simulation.simulation_configs == old(
                self,
            ).next_simulation_configs,
            final(self).current_simulation.obstacles@ == old(self).next_obstacles@,
            final(self).current_simulation.animate_obstacles_using_game_of_life == old(
                self,
            ).current_simulation.animate_obstacles_using_game_of_life,
            final(self).current_simulation.spec_frame_number() == 0,
            final(self).current_simulation.emitted_frames() == Seq::<i64>::empty(),
            final(self).rendering_listener.save_into_dir == old(self).next_save_into_dir,
            final(self).rendering_listener.obstacles_color == old(
                self,
            ).rendering_listener.obstacles_color,
    {
        let m = self.next_obstacles.len();
        let mut obstacles: Vec<ObstaclesType> = Vec::new();
        let mut k: usize = 0;
        while k < m
            invariant
                0 <= k <= m,
                m == self.next_obstacles@.len(),
                obstacles@.len() == k,
                self.next_obstacles == old(self).next_obstacles,
                forall|a: int| 0 <= a < k ==> obstacles@[a] == self.next_obstacles@[a],
            decreases m - k,
        {
            let obstacle = self.next_obstacles[k];
            obstacles.push(obstacle);
            k = k + 1;
        }
        proof {
            assert(obstacles@ =~= self.next_obstacles@);
        }
        self.current_simulation = CurrentSimulation::new(
            self.next_fluid_configs,
            self.next_simulation_configs,
            obstacles,
            self.current_simulation.animate_obstacles_using_game_of_life,
        );
        self.rendering_listener.save_into_dir = self.next_save_into_dir.clone();
    }
}

impl Default for Renderer {
    /// The default Renderer: default configurations, one default obstacle
    /// buffered and live, and the stock output directory.
    fn default() -> (r: Renderer)
        ensures
            r.wf(),
            r.spec_next_run_valid(),
            r.next_simulation_configs == (SimulationConfigs { frames: 16i64, size: 128u32 }),
            r.obstacles@.len() == 1,
            r.next_obstacles@.len() == 1,
            r.current_simulation.fluid.is_fresh_border_grid(),
            r.current_simulation.simulation_configs == (SimulationConfigs {
                frames: 16i64,
                size: 128u32,
            }),
            r.current_simulation.obstacles@.len() == 1,
            r.save_into_dir@ == "rendered_images"@,
            r.next_save_into_dir@ == "rendered_images"@,
    {
        let current_simulation = CurrentSimulation::default();
        let mut obstacles: Vec<ObstaclesType> = Vec::new();
        obstacles.push(ObstaclesType::Rectangle(Default::default()));
        let mut next_obstacles: Vec<ObstaclesType> = Vec::new();
        next_obstacles.push(ObstaclesType::Rectangle(Default::default()));
        let fluid = FluidCube::new(128);
        Renderer {
            fluid,
            next_fluid_configs: FluidConfigs::default(),
            next_simulation_configs: SimulationConfigs::default(),
            save_into_dir: "rendered_images".to_owned(),
            next_save_into_dir: "rendered_images".to_owned(),
            obstacles_color: Color32::red(),
            obstacles,
            next_obstacles,
            current_simulation,
            rendering_listener: RenderingListener::default(),
        }
    }
}

} // verus!
