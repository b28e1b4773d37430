use equilibrium::simulation::configs::{Color32, FluidConfigs, SimulationConfigs};
use equilibrium::simulation::fluid::ContainerWall;
use equilibrium::simulation::obstacle::{Obstacle, ObstaclesType, Rectangle};
use equilibrium::simulation::renderer::Renderer;
use equilibrium::simulation::renderer_helpers::{density_img_path, RenderingListener};
use equilibrium::widgets::{FluidWidget, SettingType, SettingsMenu, SimulationWidget, ViewportWidget};

#[test]
fn density_img_path_str_works() {
    assert_eq!(
        density_img_path("holiday_dir", 0),
        "holiday_dir/density0.jpg"
    );
}

#[test]
fn density_img_path_renders_the_frame_number() {
    assert_eq!(density_img_path("out", 12), "out/density12.jpg");
    assert_eq!(density_img_path("out", 1207), "out/density1207.jpg");
}

#[test]
fn update_configs() {
    //---------- Init renderer -----------
    let fluid_configs = FluidConfigs::default();
    let simulation_configs = SimulationConfigs::default();

    let mut renderer = Renderer::new(
        fluid_configs,
        simulation_configs,
        Color32::red(),
        "rendered_images".to_string(),
    );

    // assert it is correctly configured for the test
    assert_ne!(renderer.next_fluid_configs.has_perlin_noise, false);

    //---------- Init SettingMenu -----------
    let mut fluid_ui_setting = FluidWidget::default();

    fluid_ui_setting.fluid_configs.has_perlin_noise = false;

    // assert it is correctly configured for the test
    assert_eq!(fluid_ui_setting.fluid_configs.has_perlin_noise, false);

    let settings_menu =
        SettingsMenu::from_settings(vec![SettingType::Fluid(fluid_ui_setting)], false);

    //---------- Test's purpose -----------
    renderer.update_configs(&settings_menu.settings_menu);

    assert_eq!(renderer.next_fluid_configs.has_perlin_noise, false);
}

#[test]
fn update_configs_last_setting_wins() {
    let mut renderer = Renderer::new(
        FluidConfigs::default(),
        SimulationConfigs::default(),
        Color32::red(),
        "rendered_images".to_string(),
    );
    let mut first = SimulationWidget::default();
    first.simulation_configs = SimulationConfigs::new(7, 32);
    let mut second = SimulationWidget::default();
    second.simulation_configs = SimulationConfigs::new(3, 64);
    let mut viewport = ViewportWidget::default();
    viewport.save_into_dir = "another_dir".to_string();
    let settings = vec![
        SettingType::Simulation(first),
        SettingType::Viewport(viewport),
        SettingType::Simulation(second),
    ];
    renderer.update_configs(&settings);
    assert_eq!(renderer.next_simulation_configs.frames, 3);
    assert_eq!(renderer.next_simulation_configs.size, 64);
    assert_eq!(renderer.next_save_into_dir, "another_dir");
    // The live run's directory is untouched until the next run is prepared.
    assert_eq!(renderer.save_into_dir, "rendered_images");
}

#[test]
fn prepare_simulation_applies_the_buffered_state() {
    let mut renderer = Renderer::default();
    let mut simulation_widget = SimulationWidget::default();
    simulation_widget.simulation_configs = SimulationConfigs::new(4, 16);
    let mut viewport = ViewportWidget::default();
    viewport.save_into_dir = "next_dir".to_string();
    renderer.update_configs(&[
        SettingType::Simulation(simulation_widget),
        SettingType::Viewport(viewport),
    ]);
    // The default obstacle does not fit a 16-cell container: the buffered
    // state must be validated before a run is prepared from it.
    assert!(!renderer.next_run_valid());
    renderer.next_obstacles.clear();
    assert!(renderer.next_run_valid());
    renderer.prepare_simulation();
    assert_eq!(renderer.current_simulation.simulation_configs.frames, 4);
    assert_eq!(renderer.current_simulation.simulation_configs.size, 16);
    assert!(renderer.current_simulation.obstacles.is_empty());
    assert_eq!(renderer.rendering_listener.save_into_dir, "next_dir");
}

#[test]
fn default_renderer() {
    let mut renderer = Renderer::default();
    renderer.current_simulation.mark_fluid_obstacles();
    let default_walls_real_count = renderer.current_simulation.fluid.count_default_walls();

    let size = renderer.current_simulation.simulation_configs.size;
    let image_parameter = 2 * (size + (size - 2));

    // Sums up the area of all obstacles. NB: Assumes all obstacles are rectangles
    let obstacles_area = renderer.current_simulation.obstacles.iter().fold(0, |acc, x| {
        acc + calc_width(
            x.get_approximate_points()[0],
            x.get_approximate_points()[1],
        ) * calc_height(
            x.get_approximate_points()[0],
            x.get_approximate_points()[1],
        )
    });

    // NB: We explicitly know that the obstacle does not overlap with the perimeter.
    let expected_count = obstacles_area + i64::from(image_parameter);

    // Safety note: Default wall size is way smaller than usize.
    assert_eq!(default_walls_real_count, expected_count as usize);
}

fn calc_height<T>(a: (T, T), b: (T, T)) -> T::Output
where
    T: std::ops::Sub,
{
    b.0 - a.0
}

fn calc_width<T>(a: (T, T), b: (T, T)) -> T::Output
where
    T: std::ops::Sub,
{
    b.0 - a.0
}

#[test]
fn pixel_color_follows_the_cell_classification() {
    let listener = RenderingListener::default();
    let fluid_configs = FluidConfigs::default();
    let weighted = Color32::from_rgba_premultiplied(17, 88, 3, 1);
    // A wall cell is always drawn in the obstacle color.
    assert_eq!(
        listener.pixel_color(&fluid_configs, ContainerWall::DefaultWall, false, weighted),
        listener.obstacles_color
    );
    assert_eq!(
        listener.pixel_color(&fluid_configs, ContainerWall::DefaultWall, true, weighted),
        listener.obstacles_color
    );
    // An open cell carrying density is drawn in the density-weighted color.
    assert_eq!(
        listener.pixel_color(&fluid_configs, ContainerWall::NoWall, false, weighted),
        weighted
    );
    // An open cell without density shows the world.
    assert_eq!(
        listener.pixel_color(&fluid_configs, ContainerWall::NoWall, true, weighted),
        fluid_configs.world_color
    );
}

#[test]
fn rejected_rectangle_is_reported_by_validation() {
    let mut renderer = Renderer::default();
    renderer.next_obstacles = vec![ObstaclesType::Rectangle(Rectangle::new(
        (8, 8),
        (10, 10),
        128,
    ))];
    assert!(renderer.next_run_valid());
    // An obstacle reaching outside the buffered container is refused.
    renderer.next_simulation_configs.size = 10;
    assert!(!renderer.next_run_valid());
}
