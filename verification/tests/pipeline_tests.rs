use equilibrium::simulation::configs::{FluidConfigs, SimulationConfigs};
use equilibrium::simulation::current_simulation::CurrentSimulation;
use equilibrium::simulation::fluid::ContainerWall;
use equilibrium::simulation::obstacle::Obstacle;
use std::sync::mpsc;

#[test]
fn frame_ordering_end_to_end() {
    // Drive a four-frame run on a 16-cell grid and collect every emitted
    // frame number through a channel, as the rendering consumer would.
    let fluid_configs = FluidConfigs::default();
    let simulation_configs = SimulationConfigs::new(4, 16);
    let mut simulation = CurrentSimulation::new(fluid_configs, simulation_configs, Vec::new(), false);

    let (tx, rx) = mpsc::channel::<i64>();
    while !simulation.is_done() {
        simulation.check_animation_obstacles();
        simulation.draw_obstacles();
        // The numeric integrator's solver step runs here, off the grid
        // bookkeeping's books.
        let frame_number = simulation.emit_frame();
        tx.send(frame_number).unwrap();
        simulation.undraw_obstacles();
    }
    drop(tx);

    let received: Vec<i64> = rx.iter().collect();
    assert_eq!(received, vec![0, 1, 2, 3]);
}

#[test]
fn mark_fluid_obstacles_default_current_simulation() {
    let mut current_simulation = CurrentSimulation::default();
    current_simulation.draw_obstacles();
    let default_walls_real_count = current_simulation.fluid.count_default_walls();

    let size = current_simulation.simulation_configs.size;
    let image_parameter = 2 * (size + (size - 2));

    // Sums up the area of all obstacles. NB: Assumes all obstacles are rectangles
    let obstacles_area = current_simulation.obstacles.iter().fold(0, |acc, x| {
        acc + calc_width(
            x.get_approximate_points()[0],
            x.get_approximate_points()[1],
        ) * calc_height(
            x.get_approximate_points()[0],
            x.get_approximate_points()[1],
        )
    });

    // NB: We explicitly know that the obstacle does not overlap with the perimeter.
    let expected_count = obstacles_area + i64::from(image_parameter);

    // Safety note: Default wall size is way smaller than usize.
    assert_eq!(default_walls_real_count, expected_count as usize);
}

fn calc_height<T>(a: (T, T), b: (T, T)) -> T::Output
where
    T: std::ops::Sub,
{
    b.0 - a.0
}

fn calc_width<T>(a: (T, T), b: (T, T)) -> T::Output
where
    T: std::ops::Sub,
{
    b.0 - a.0
}

#[test]
fn drawing_and_undrawing_obstacles_round_trips_the_grid() {
    let mut simulation = CurrentSimulation::default();
    let fresh_walls = simulation.fluid.count_default_walls();
    simulation.draw_obstacles();
    assert!(simulation.fluid.count_default_walls() > fresh_walls);
    simulation.undraw_obstacles();
    // The default obstacle touches no border cell, so un-stamping restores
    // the fresh border-only grid.
    assert_eq!(simulation.fluid.count_default_walls(), fresh_walls);
}

#[test]
fn animated_run_emits_every_frame() {
    // With the animation on, the obstacle set is random per frame, but the
    // frame ordering guarantee holds all the same.
    let fluid_configs = FluidConfigs::default();
    let simulation_configs = SimulationConfigs::new(3, 64);
    let mut simulation = CurrentSimulation::new(fluid_configs, simulation_configs, Vec::new(), true);
    let mut received: Vec<i64> = Vec::new();
    while !simulation.is_done() {
        simulation.check_animation_obstacles();
        simulation.draw_obstacles();
        received.push(simulation.emit_frame());
        simulation.undraw_obstacles();
    }
    assert_eq!(received, vec![0, 1, 2]);
    // Every cell a wall is inside the grid: the classification stays sized.
    assert_eq!(
        simulation.fluid.cells_type.len(),
        64 * 64,
    );
    assert!(simulation
        .fluid
        .cells_type
        .iter()
        .all(|cell| *cell == ContainerWall::DefaultWall || *cell == ContainerWall::NoWall));
}
