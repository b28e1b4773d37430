use equilibrium::simulation::fluid::{ContainerWall, FluidCube};
use equilibrium::simulation::obstacle::{ObstaclesType, Rectangle};

#[test]
fn test_constrain_lower_bound() {
    let var: u32 = 5;
    assert!(FluidCube::constrain(var, 10, 20) == 10);
}

#[test]
fn test_constrain_upper_bound() {
    let var: u32 = 25;
    assert!(FluidCube::constrain(var, 10, 20) == 20);
}

#[test]
fn constrain_keeps_in_range_values() {
    assert_eq!(FluidCube::constrain(10, 10, 20), 10);
    assert_eq!(FluidCube::constrain(15, 10, 20), 15);
    assert_eq!(FluidCube::constrain(20, 10, 20), 20);
}

#[test]
fn to_coordinate() {
    // ------ Set up coordinates -----
    let coordinate = (3, 4);
    let size = 10;

    let idx = FluidCube::idx(coordinate.0, coordinate.1, size) as i64;

    assert_eq!(coordinate, FluidCube::to_coordinate(idx, size));
}

#[test]
fn idx_clamps_out_of_range_coordinates() {
    let size = 10;
    // Negative coordinates clamp to the first row/column.
    assert_eq!(FluidCube::idx(-5, 3, size), FluidCube::idx(0, 3, size));
    // Oversized coordinates clamp to the last row/column.
    assert_eq!(FluidCube::idx(1000, 1000, size), 99);
    // Every result lands inside the cell array.
    for x in -3..13 {
        for y in -3..13 {
            assert!(FluidCube::idx(x, y, size) < 100);
        }
    }
}

#[test]
fn idx_round_trips_in_range_coordinates() {
    let size = 10;
    for x in 0..size {
        for y in 0..size {
            let idx = FluidCube::idx(x, y, size) as i64;
            assert_eq!(FluidCube::to_coordinate(idx, size), (x, y));
        }
    }
}

#[test]
fn fresh_grid_wall_budget_follows_perimeter_formula() {
    for size in [3u32, 5, 8, 16, 127, 128] {
        let cube = FluidCube::new(size);
        let size = size as usize;
        assert_eq!(cube.count_default_walls(), 2 * (size + (size - 2)));
    }
}

#[test]
fn obstacle_fill_count() {
    // A bare, wall-free grid: the bounding-box fill is counted on its own.
    let mut cube = FluidCube {
        size: 11,
        cells_type: vec![ContainerWall::NoWall; 121],
    };
    let rectangle = Rectangle::new((8, 8), (10, 10), 11);
    let obstacle = ObstaclesType::Rectangle(rectangle);
    cube.fill_obstacle(&obstacle, ContainerWall::DefaultWall);
    // The half-open bounding box covers exactly (10-8) x (10-8) cells.
    assert_eq!(cube.count_default_walls(), 4);
    // Every other cell is still open to the fluid.
    let open_cells = cube
        .cells_type
        .iter()
        .filter(|&cell| *cell == ContainerWall::NoWall)
        .count();
    assert_eq!(open_cells, 121 - 4);
}

#[test]
fn filling_and_erasing_an_obstacle_restores_the_walls() {
    let mut cube = FluidCube::new(11);
    let border_walls = cube.count_default_walls();
    assert_eq!(border_walls, 2 * (11 + 9));
    let obstacle = ObstaclesType::Rectangle(Rectangle::new((8, 8), (10, 10), 11));
    cube.fill_obstacle(&obstacle, ContainerWall::DefaultWall);
    assert_eq!(cube.count_default_walls(), border_walls + 4);
    cube.fill_obstacle(&obstacle, ContainerWall::NoWall);
    assert_eq!(cube.count_default_walls(), border_walls);
}
