use equilibrium::simulation::obstacle::{Obstacle, ObstaclesType, Rectangle};

#[test]
fn rectangle_valid_parameters_succeed() {
    let rectangle = Rectangle::try_new((8, 8), (10, 10), 11).unwrap();
    // The bounding box spans x in [8, 10] and y in [8, 10].
    assert_eq!(rectangle.down_left_point, (8, 8));
    assert_eq!(rectangle.up_right_point, (10, 10));
    assert!(rectangle.are_all_points_valid(11));
}

#[test]
fn rectangle_wrong_parameters_rejected() {
    // Corners on the swapped diagonal do not describe a down-left/up-right
    // pair.
    let up_left = (50, 120);
    let down_right = (127, 110);
    assert!(Rectangle::try_new(up_left, down_right, 128).is_none());
}

#[test]
fn rectangle_swapped_parameters_rejected() {
    let down_left_point = (10, 10);
    let up_right_point = (12, 12);
    assert!(Rectangle::try_new(up_right_point, down_left_point, 128).is_none());
}

#[test]
fn rectangle_anti_diagonal_corners_rejected() {
    // The anti-diagonal pair is not ordered component-wise either.
    assert!(Rectangle::try_new((8, 10), (10, 8), 11).is_none());
}

#[test]
fn rectangle_out_of_container_rejected() {
    assert!(Rectangle::try_new((8, 8), (11, 10), 11).is_none());
    assert!(Rectangle::try_new((-1, 8), (10, 10), 11).is_none());
    assert!(Rectangle::try_new((8, 8), (8, 10), 11).is_none());
}

#[test]
fn default_rectangle_sits_in_the_down_right_corner() {
    let rectangle = Rectangle::default();
    assert_eq!(rectangle.down_left_point, (118, 118));
    assert_eq!(rectangle.up_right_point, (127, 127));
    assert!(rectangle.are_all_points_valid(128));
}

#[test]
fn approximate_points_are_the_two_corners() {
    let rectangle = Rectangle::new((8, 8), (10, 10), 11);
    let obstacle = ObstaclesType::Rectangle(rectangle);
    let points = obstacle.get_approximate_points();
    assert_eq!(points, vec![(8, 8), (10, 10)]);
}
