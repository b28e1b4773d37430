use equilibrium::widgets::{
    set_open, FluidWidget, ObstacleWidget, SettingType, SettingsMenu, SimulationWidget,
    ViewportWidget,
};

#[test]
fn default_obstacle() {
    let obstacle_widget = ObstacleWidget::default();
    assert_eq!(obstacle_widget.obstacles.len(), 1);
}

#[test]
fn add_obstacle() {
    let mut obstacle_widget = ObstacleWidget::default();

    obstacle_widget.add_obstacle();

    // Safety note: we just created an obstacle, so last() will return it.
    assert_eq!(
        obstacle_widget.obstacles.last().unwrap().name,
        "Rectangle/1"
    );

    // ----------- Create and delete a new obstacle -----------
    obstacle_widget.add_obstacle();

    // Assert it is correctly counted
    assert_eq!(
        obstacle_widget.obstacles.last().unwrap().name,
        "Rectangle/2"
    );

    obstacle_widget.obstacles.pop();
    obstacle_widget.add_obstacle();

    // Main assert: Assure the last element after removal is correctly counted.
    assert_eq!(
        obstacle_widget.obstacles.last().unwrap().name,
        "Rectangle/3"
    );

    // Assert Rectangle/2 is missing
    let count_rectangle_two = obstacle_widget
        .obstacles
        .iter()
        .filter(|&el| el.name == "Rectangle/2")
        .count();

    assert_eq!(count_rectangle_two, 0);
}

#[test]
fn settingtype_name_works() {
    let fluid_widget = FluidWidget::default();
    let fluid_setting_type = SettingType::Fluid(fluid_widget);
    assert_eq!(fluid_setting_type.name(), fluid_widget.name());
}

#[test]
fn setting_names_are_distinct() {
    let names = [
        SettingType::Fluid(FluidWidget::default()).name(),
        SettingType::Simulation(SimulationWidget::default()).name(),
        SettingType::Viewport(ViewportWidget::default()).name(),
        SettingType::Obstacle(ObstacleWidget::default()).name(),
    ];
    for i in 0..names.len() {
        for j in 0..names.len() {
            assert_eq!(names[i] == names[j], i == j);
        }
    }
}

#[test]
fn set_open_tracks_the_checkbox_state() {
    let mut open_windows: Vec<String> = Vec::new();
    set_open(&mut open_windows, "Fluid", true);
    assert_eq!(open_windows, vec!["Fluid".to_string()]);
    // Opening an already open window changes nothing.
    set_open(&mut open_windows, "Fluid", true);
    assert_eq!(open_windows, vec!["Fluid".to_string()]);
    set_open(&mut open_windows, "Viewport", true);
    assert_eq!(
        open_windows,
        vec!["Fluid".to_string(), "Viewport".to_string()]
    );
    set_open(&mut open_windows, "Fluid", false);
    assert_eq!(open_windows, vec!["Viewport".to_string()]);
    // Closing a window that is not open changes nothing.
    set_open(&mut open_windows, "Fluid", false);
    assert_eq!(open_windows, vec!["Viewport".to_string()]);
}

#[test]
fn settings_menu_opens_the_simulation_panel_first() {
    let menu = SettingsMenu::default();
    assert_eq!(menu.settings_menu.len(), 4);
    assert_eq!(menu.open_windows, vec!["Simulation".to_string()]);

    let mut menu = SettingsMenu::from_settings(Vec::new(), false);
    assert!(menu.open_windows.is_empty());
    menu.close_all();
    assert!(menu.open_windows.is_empty());
}

#[test]
fn viewport_resize_factor_is_clamped() {
    let mut viewport = ViewportWidget::default();
    assert_eq!(viewport.image_resize_factor, 50);
    viewport.image_resize_factor = 120;
    viewport.clamp_resize_factor();
    assert_eq!(viewport.image_resize_factor, 100);
    viewport.image_resize_factor = 0;
    viewport.clamp_resize_factor();
    assert_eq!(viewport.image_resize_factor, 1);
    viewport.image_resize_factor = 73;
    viewport.clamp_resize_factor();
    assert_eq!(viewport.image_resize_factor, 73);
}
