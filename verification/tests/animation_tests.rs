use equilibrium::simulation::animation::{
    cell_bitmap_to_obstacles, game_of_life, normalized_height, normalized_width,
    obstacles_to_cell_bitmap, random_cell_bitmap,
};
use equilibrium::simulation::fluid::FluidCube;
use equilibrium::simulation::obstacle::{ObstaclesType, Rectangle};

fn block_obstacle(cell_x: i64, cell_y: i64, width: u32) -> ObstaclesType {
    ObstaclesType::Rectangle(Rectangle::new(
        ((cell_x - 1) * 8, (cell_y - 1) * 8),
        (cell_x * 8, cell_y * 8),
        width,
    ))
}

fn corners(obstacle: &ObstaclesType) -> ((i64, i64), (i64, i64)) {
    match obstacle {
        ObstaclesType::Rectangle(rectangle) => {
            (rectangle.down_left_point, rectangle.up_right_point)
        }
    }
}

#[test]
fn normalized_sizes_count_blocks() {
    assert_eq!(normalized_width(128), 16);
    assert_eq!(normalized_height(128), 16);
    assert_eq!(normalized_width(20), 2);
    assert_eq!(normalized_width(7), 0);
}

#[test]
fn random_cell_bitmap_has_one_flag_per_block() {
    let bitmap = random_cell_bitmap(128, 128);
    assert_eq!(bitmap.len(), 256);
}

#[test]
fn cell_bitmap_to_obstacles_keeps_in_container_blocks() {
    let mut bitmap = vec![false; 256];
    // The block in the first row/column would reach outside the container:
    // it yields no obstacle.
    bitmap[0] = true;
    // Block (1, 1) becomes the box from (0, 0) to (8, 8).
    bitmap[17] = true;
    let obstacles = cell_bitmap_to_obstacles(&bitmap, 16, 16);
    assert_eq!(obstacles.len(), 1);
    assert_eq!(corners(&obstacles[0]), ((0, 0), (8, 8)));
}

#[test]
fn obstacles_to_cell_bitmap_marks_the_up_right_block() {
    let obstacles = vec![block_obstacle(2, 2, 128)];
    let bitmap = obstacles_to_cell_bitmap(&obstacles, 16, 16);
    assert_eq!(bitmap.len(), 256);
    for (k, flag) in bitmap.iter().enumerate() {
        assert_eq!(*flag, k == 2 + 2 * 16);
    }
}

#[test]
fn game_of_life_block_of_four_survives() {
    // A 2x2 block of alive blocks: each has exactly two alive neighbours and
    // survives; no dead block has more than three alive neighbours.
    let previous = vec![
        block_obstacle(2, 2, 128),
        block_obstacle(3, 2, 128),
        block_obstacle(2, 3, 128),
        block_obstacle(3, 3, 128),
    ];
    let next = game_of_life(&previous, 128, 128);
    assert_eq!(next.len(), 4);
    assert_eq!(corners(&next[0]), ((8, 8), (16, 16)));
    assert_eq!(corners(&next[1]), ((16, 8), (24, 16)));
    assert_eq!(corners(&next[2]), ((8, 16), (16, 24)));
    assert_eq!(corners(&next[3]), ((16, 16), (24, 24)));
}

#[test]
fn game_of_life_lonely_block_dies() {
    let previous = vec![block_obstacle(5, 5, 128)];
    let next = game_of_life(&previous, 128, 128);
    assert!(next.is_empty());
}

#[test]
fn game_of_life_crowded_block_is_born() {
    // Four alive blocks around a dead centre: the centre has four alive
    // neighbours and is born; each arm has none and dies.
    let previous = vec![
        block_obstacle(5, 4, 128),
        block_obstacle(4, 5, 128),
        block_obstacle(6, 5, 128),
        block_obstacle(5, 6, 128),
    ];
    let next = game_of_life(&previous, 128, 128);
    assert_eq!(next.len(), 1);
    assert_eq!(corners(&next[0]), ((32, 32), (40, 40)));
}

#[test]
fn animated_obstacles_stamp_inside_the_grid() {
    // Whatever the automaton produces can be stamped onto a matching grid.
    let previous = vec![
        block_obstacle(2, 2, 128),
        block_obstacle(3, 2, 128),
        block_obstacle(2, 3, 128),
        block_obstacle(3, 3, 128),
    ];
    let next = game_of_life(&previous, 128, 128);
    let mut cube = FluidCube::new(128);
    let border_walls = cube.count_default_walls();
    for obstacle in &next {
        cube.fill_obstacle(obstacle, equilibrium::simulation::fluid::ContainerWall::DefaultWall);
    }
    // Four disjoint 8x8 blocks away from the border.
    assert_eq!(cube.count_default_walls(), border_walls + 4 * 64);
}
