use crate::simulation::configs::{Color32, FluidConfigs, SimulationConfigs};
use crate::simulation::obstacle::{ObstaclesType, Rectangle};
use crate::text::{decimal_string, spec_decimal};
use vstd::prelude::*;

verus! {

/// The fluid settings panel's data: the fluid configurations it edits and
/// hands to the renderer on the next run.
#[derive(Clone, Copy)]
pub struct FluidWidget {
    /// The fluid configurations being edited.
    pub fluid_configs: FluidConfigs,
}

impl FluidWidget {
    /// The unique display name of the panel.
    pub fn name(&self) -> (r: &'static str)
        ensures
            r@ == "Fluid"@,
    {
        "Fluid"
    }
}

impl Default for FluidWidget {
    /// A panel editing the default fluid configurations.
    fn default() -> (r: FluidWidget)
        ensures
            r.fluid_configs.has_perlin_noise == true,
    {
        FluidWidget { fluid_configs: FluidConfigs::default() }
    }
}

/// The simulation settings panel's data: the run configurations it edits and
/// hands to the renderer on the next run.
#[derive(Clone, Copy)]
pub struct SimulationWidget {
    /// The simulation configurations being edited.
    pub simulation_configs: SimulationConfigs,
}

impl SimulationWidget {
    /// The unique display name of the panel.
    pub fn name(&self) -> (r: &'static str)
        ensures
            r@ == "Simulation"@,
    {
        "Simulation"
    }
}

impl Default for SimulationWidget {
    /// A panel editing the default simulation configurations.
    fn default() -> (r: SimulationWidget)
        ensures
            r.simulation_configs == (SimulationConfigs { frames: 16i64, size: 128u32 }),
    {
        SimulationWidget { simulation_configs: SimulationConfigs::default() }
    }
}

/// The viewport settings panel's data: how large the rendered image is shown
/// and where the rendered frames are saved.
#[derive(Clone)]
pub struct ViewportWidget {
    /// Whether the panel is interactive.
    pub enabled: bool,
    /// Configuration for the size of the simulation image with regard to the
    /// size of the central panel. *Note:* in percents.
    pub image_resize_factor: u8,
    /// The name of the directory in which the rendered images will be saved.
    pub save_into_dir: String,
}

impl ViewportWidget {
    /// The unique display name of the panel.
    pub fn name(&self) -> (r: &'static str)
        ensures
            r@ == "Viewport"@,
    {
        "Viewport"
    }

    /// Keeps the resize factor inside its meaningful percentage range: above
    /// one hundred it is pulled down to one hundred, at one or below it is
    /// pulled up to one.
    pub fn clamp_resize_factor(&mut self)
        ensures
            final(self).image_resize_factor == (if old(self).image_resize_factor > 100 {
                100u8
            } else if old(self).image_resize_factor <= 1 {
                1u8
            } else {
                old(self).image_resize_factor
            }),
            final(self).enabled == old(self).enabled,
            final(self).save_into_dir == old(self).save_into_dir,
    {
        if self.image_resize_factor > 100 {
            self.image_resize_factor = 100;
        } else if self.image_resize_factor <= 1 {
            self.image_resize_factor = 1;
        }
    }
}

impl Default for ViewportWidget {
    /// An interactive panel showing the image at half size, saving into the
    /// stock directory.
    fn default() -> (r: ViewportWidget)
        ensures
            r.enabled == true,
            r.image_resize_factor == 50u8,
            r.save_into_dir@ == "rendered_images"@,
    {
        ViewportWidget {
            enabled: true,
            image_resize_factor: 50,
            save_into_dir: "rendered_images".to_owned(),
        }
    }
}

/// Describes if an element should be deleted or kept alive in the next frame.
#[derive(Clone, Copy, PartialEq, Eq, Structural, Debug)]
pub enum Action {
    /// The element should be kept available.
    Keep,
    /// The element should be deleted.
    Delete,
}

/// One obstacle entry of the obstacle panel: the data for a single obstacle,
/// under a name of its own.
#[derive(Clone)]
pub struct ObstacleLayout {
    /// The name of the obstacle entry, unique within the panel.
    pub name: String,
    /// The obstacle per se — the data for the given obstacle.
    pub obstacle: ObstaclesType,
    /// When marked as [`Action::Delete`], the obstacle is deleted in the next
    /// frame.
    pub action: Action,
}

impl Default for ObstacleLayout {
    /// The stock entry: the default rectangle, kept alive.
    fn default() -> (r: ObstacleLayout)
        ensures
            r.name@ == "Rectangle"@,
            r.obstacle == ObstaclesType::Rectangle(
                Rectangle { down_left_point: (118i64, 118i64), up_right_point: (127i64, 127i64) },
            ),
            r.action == Action::Keep,
    {
        ObstacleLayout {
            name: "Rectangle".to_owned(),
            obstacle: ObstaclesType::Rectangle(Rectangle::default()),
            action: Action::Keep,
        }
    }
}

/// The obstacle panel's data: the obstacle entries being edited, their shared
/// display color, and the running id from which new entries take their names.
#[derive(Clone)]
pub struct ObstacleWidget {
    /// Whether the panel is interactive.
    pub enabled: bool,
    /// Collection of obstacle entries. Their names must be unique.
    pub obstacles: Vec<ObstacleLayout>,
    /// The obstacles' color in the scene.
    pub color: Color32,
    /// The id given to the obstacle entry added most recently.
    pub last_obstacle_id: u32,
}

impl ObstacleWidget {
    /// The unique display name of the panel.
    pub fn name(&self) -> (r: &'static str)
        ensures
            r@ == "Obstacle"@,
    {
        "Obstacle"
    }

    /// Adds a new obstacle entry with the appropriate configurations. Every
    /// obstacle entry gets a unique name: the obstacle's type and its serial
    /// number. If an entry with a serial number in the middle of the sequence
    /// has been deleted, that does not affect the newly generated ones: their
    /// numbering keeps progressing from the point it has been left at.
    pub fn add_obstacle(&mut self)
        requires
            old(self).last_obstacle_id < u32::MAX,
        ensures
            final(self).enabled == old(self).enabled,
            final(self).color == old(self).color,
            final(self).last_obstacle_id == old(self).last_obstacle_id + 1,
            final(self).obstacles@.len() == old(self).obstacles@.len() + 1,
            forall|i: int|
                0 <= i < old(self).obstacles@.len() ==> final(self).obstacles@[i] == old(
                    self,
                ).obstacles@[i],
            final(self).obstacles@.last().name@ == "Rectangle"@ + "/"@ + spec_decimal(
                (old(self).last_obstacle_id + 1) as nat,
            ),
            final(self).obstacles@.last().obstacle == ObstaclesType::Rectangle(
                Rectangle { down_left_point: (118i64, 118i64), up_right_point: (127i64, 127i64) },
            ),
            final(self).obstacles@.last().action == Action::Keep,
    {
        let default_obstacle_layout = ObstacleLayout::default();

        self.last_obstacle_id = self.last_obstacle_id + 1;

        let mut name = default_obstacle_layout.name;
        name.append("/");
        let serial = decimal_string(self.last_obstacle_id as u64);
        name.append(serial.as_str());

        self.obstacles.push(
            ObstacleLayout {
                name,
                obstacle: default_obstacle_layout.obstacle,
                action: default_obstacle_layout.action,
            },
        );
    }
}

impl Default for ObstacleWidget {
    /// An interactive panel holding the stock entry, drawn in red.
    fn default() -> (r: ObstacleWidget)
        ensures
            r.enabled == true,
            r.obstacles@.len() == 1,
            r.obstacles@[0].name@ == "Rectangle"@,
            r.obstacles@[0].obstacle == ObstaclesType::Rectangle(
                Rectangle { down_left_point: (118i64, 118i64), up_right_point: (127i64, 127i64) },
            ),
            r.obstacles@[0].action == Action::Keep,
            r.color == (Color32 { r: 255u8, g: 0u8, b: 0u8, a: 255u8 }),
            r.last_obstacle_id == 0,
    {
        let mut obstacles: Vec<ObstacleLayout> = Vec::new();
        obstacles.push(ObstacleLayout::default());
        ObstacleWidget { enabled: true, obstacles, color: Color32::red(), last_obstacle_id: 0 }
    }
}

/// Enum describing the various widgets' types. This is what unifies all the
/// panels and is used for storing them in collections.
#[derive(Clone)]
pub enum SettingType {
    /// Used for describing the [`FluidWidget`] type.
    Fluid(FluidWidget),
    /// Used for describing the [`SimulationWidget`] type.
    Simulation(SimulationWidget),
    /// Used for describing the [`ViewportWidget`] type.
    Viewport(ViewportWidget),
    /// Used for describing the [`ObstacleWidget`] type.
    Obstacle(ObstacleWidget),
}

impl SettingType {
    /// The display name of the wrapped panel.
    pub open spec fn spec_name(&self) -> Seq<char> {
        match self {
            SettingType::Fluid(_) => "Fluid"@,
            SettingType::Simulation(_) => "Simulation"@,
            SettingType::Viewport(_) => "Viewport"@,
            SettingType::Obstacle(_) => "Obstacle"@,
        }
    }

    /// The unique display name of the wrapped panel.
    pub fn name(&self) -> (r: &'static str)
        ensures
            r@ == self.spec_name(),
    {
        match self {
            SettingType::Fluid(fluid_widget) => fluid_widget.name(),
            SettingType::Simulation(simulation_widget) => simulation_widget.name(),
            SettingType::Viewport(viewport_widget) => viewport_widget.name(),
            SettingType::Obstacle(obstacle_widget) => obstacle_widget.name(),
        }
    }
}

/// Whether some entry of the list reads as the given key.
pub open spec fn spec_contains_key(entries: Seq<String>, key: Seq<char>) -> bool {
    exists|i: int| 0 <= i < entries.len() && entries[i]@ == key
}

/// Every entry of the list reads differently: the list stands for a set.
pub open spec fn spec_keys_unique(entries: Seq<String>) -> bool {
    forall|i: int, j: int| 0 <= i < j < entries.len() ==> entries[i]@ != entries[j]@
}

/// Adds the key to the set of open windows or removes it from it, following
/// the checkbox state: present exactly when the box is checked.
pub fn set_open(open_windows: &mut Vec<String>, key: &str, is_open: bool)
    requires
        spec_keys_unique(old(open_windows)@),
    ensures
        spec_keys_unique(final(open_windows)@),
        spec_contains_key(final(open_windows)@, key@) == is_open,
        is_open && spec_contains_key(old(open_windows)@, key@) ==> final(open_windows)@ == old(
            open_windows,
        )@,
        is_open && !spec_contains_key(old(open_windows)@, key@) ==> final(open_windows)@.len()
            == old(open_windows)@.len() + 1 && final(open_windows)@.last()@ == key@ && forall|
            i: int,
        |
            0 <= i < old(open_windows)@.len() ==> final(open_windows)@[i] == old(open_windows)@[i],
        !is_open && !spec_contains_key(old(open_windows)@, key@) ==> final(open_windows)@ == old(
            open_windows,
        )@,
        !is_open ==> forall|i: int|
            0 <= i < final(open_windows)@.len() ==> (#[trigger] final(open_windows)@[i])@ != key@
                && spec_contains_key(old(open_windows)@, final(open_windows)@[i]@),
{
    let key_string: String = key.to_owned();
    let n = open_windows.len();
    let mut found: Option<usize> = None;
    let mut i: usize = 0;
    while i < n
        invariant
            0 <= i <= n,
            n == open_windows@.len(),
            key_string@ == key@,
            match found {
                Some(j) => j < i && open_windows@[j as int]@ == key@,
                None => forall|j: int| 0 <= j < i ==> (#[trigger] open_windows@[j])@ != key@,
            },
        decreases n - i,
    {
        if open_windows[i] == key_string {
            found = Some(i);
        }
        i = i + 1;
    }
    match found {
        Some(j) => {
            if !is_open {
                open_windows.remove(j);
                proof {
                    assert forall|a: int, b: int|
                        0 <= a < b < open_windows@.len() implies open_windows@[a]@
                        != open_windows@[b]@ by {
                        if b < j {
                        } else if a < j {
                            assert(open_windows@[b] == old(open_windows)@[b + 1]);
                        } else {
                            assert(open_windows@[a] == old(open_windows)@[a + 1]);
                            assert(open_windows@[b] == old(open_windows)@[b + 1]);
                        }
                    }
                    assert forall|a: int|
                        0 <= a < open_windows@.len() implies (#[trigger] open_windows@[a])@ != key@
                        && spec_contains_key(old(open_windows)@, open_windows@[a]@) by {
                        if a < j {
                            assert(open_windows@[a] == old(open_windows)@[a]);
                        } else {
                            assert(open_windows@[a] == old(open_windows)@[a + 1]);
                        }
                    }
                }
            }
        },
        None => {
            if is_open {
                open_windows.push(key_string);
                proof {
                    assert(open_windows@[old(open_windows)@.len() as int]@ == key@);
                    assert forall|a: int, b: int|
                        0 <= a < b < open_windows@.len() implies open_windows@[a]@
                        != open_windows@[b]@ by {
                        if b == old(open_windows)@.len() {
                            assert(open_windows@[a] == old(open_windows)@[a]);
                        }
                    }
                }
            }
        },
    }
}

/// Main window with settings from which the other panels can be pulled out
/// via checkboxes.
pub struct SettingsMenu {
    /// A collection of all settings panels.
    pub settings_menu: Vec<SettingType>,
    /// The names of the currently opened panels: a set, kept as an
    /// insertion-ordered list of unique names.
    pub open_windows: Vec<String>,
}

impl SettingsMenu {
    /// The open-window names are a set: no name twice.
    pub open spec fn wf(&self) -> bool {
        spec_keys_unique(self.open_windows@)
    }

    /// Creates a [`SettingsMenu`] from a given vector of panels.
    ///
    /// * `settings_menu` - collection of all the panels
    /// * `should_open_first` - whether the simulation panel should start
    ///   opened when the application starts
    pub fn from_settings(settings_menu: Vec<SettingType>, should_open_first: bool) -> (r:
        SettingsMenu)
        ensures
            r.wf(),
            r.settings_menu == settings_menu,
            should_open_first ==> r.open_windows@.len() == 1 && r.open_windows@[0]@
                == "Simulation"@,
            !should_open_first ==> r.open_windows@.len() == 0,
    {
        let mut open_windows: Vec<String> = Vec::new();
        if should_open_first {
            let simulation_widget = SimulationWidget::default();
            open_windows.push(simulation_widget.name().to_owned());
        }
        SettingsMenu { settings_menu, open_windows }
    }

    /// Close all open windows.
    pub fn close_all(&mut self)
        ensures
            final(self).settings_menu == old(self).settings_menu,
            final(self).open_windows@.len() == 0,
            final(self).wf(),
    {
        self.open_windows.clear();
    }
}

impl Default for SettingsMenu {
    /// All four stock panels, with the simulation panel opened.
    fn default() -> (r: SettingsMenu)
        ensures
            r.wf(),
            r.settings_menu@.len() == 4,
            r.open_windows@.len() == 1 && r.open_windows@[0]@ == "Simulation"@,
    {
        let mut settings: Vec<SettingType> = Vec::new();
        settings.push(SettingType::Simulation(SimulationWidget::default()));
        settings.push(SettingType::Fluid(FluidWidget::default()));
        settings.push(SettingType::Viewport(ViewportWidget::default()));
        settings.push(SettingType::Obstacle(ObstacleWidget::default()));
        SettingsMenu::from_settings(settings, true)
    }
}

/// Menu with settings for the fluid.
pub struct FluidConfigsMenu {}

impl Default for FluidConfigsMenu {
    /// The stock, empty menu.
    fn default() -> (r: FluidConfigsMenu) {
        FluidConfigsMenu {}
    }
}

} // verus!
