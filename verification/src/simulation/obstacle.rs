use vstd::prelude::*;

verus! {

/// A point on the grid, as a pair of integer coordinates.
pub type Point = (i64, i64);

/// Defines every obstacle's behaviour.
pub trait Obstacle {
    /// The two corners of the axis-aligned bounding box by which the obstacle
    /// is approximated: first the down-left corner, then the up-right one.
    spec fn spec_corners(&self) -> (Point, Point);

    /// Get the down-left and up-right point using which the obstacle is
    /// approximated.
    fn get_approximate_points(&self) -> (r: Vec<Point>)
        ensures
            r@.len() == 2,
            r@[0] == self.spec_corners().0,
            r@[1] == self.spec_corners().1,
    ;
}

/// Whether the two corner points describe a non-degenerate axis-aligned
/// rectangle that lies inside a square container of the given side: the
/// down-left corner must be strictly smaller component-wise, and both corners
/// must be within `[0, fluid_container_size)`.
pub open spec fn spec_points_valid(
    down_left_point: Point,
    up_right_point: Point,
    fluid_container_size: int,
) -> bool {
    &&& 0 <= down_left_point.0 < up_right_point.0 < fluid_container_size
    &&& 0 <= down_left_point.1 < up_right_point.1 < fluid_container_size
}

/// Rectangle obstacle which is fit parallelly with respect to the coordinate
/// system. It is defined by its down-left vertex point and its up-right vertex
/// point. **_Note:_** It is currently designed for axis-parallel obstacles
/// only.
#[derive(Clone, Copy, PartialEq, Eq, Debug)]
pub struct Rectangle {
    /// The down-left vertex point. See [`Rectangle`]'s description.
    pub down_left_point: Point,
    /// The up-right vertex point. See [`Rectangle`]'s description.
    pub up_right_point: Point,
}

impl Rectangle {
    /// Create a new Rectangle. Construction demands valid corners: callers
    /// validate their input first, via [`Rectangle::are_all_points_valid`] or
    /// by constructing through [`Rectangle::try_new`].
    pub fn new(down_left_point: Point, up_right_point: Point, fluid_container_size: u32) -> (r:
        Rectangle)
        requires
            spec_points_valid(down_left_point, up_right_point, fluid_container_size as int),
        ensures
            r.down_left_point == down_left_point,
            r.up_right_point == up_right_point,
    {
        Rectangle { down_left_point, up_right_point }
    }

    /// Create a new Rectangle, rejecting invalid input: the result is `Some`
    /// exactly when the corners describe a non-degenerate, correctly ordered
    /// rectangle inside the container.
    pub fn try_new(down_left_point: Point, up_right_point: Point, fluid_container_size: u32) -> (r:
        Option<Rectangle>)
        ensures
            r is Some <==> spec_points_valid(
                down_left_point,
                up_right_point,
                fluid_container_size as int,
            ),
            r matches Some(rect) ==> rect.down_left_point == down_left_point
                && rect.up_right_point == up_right_point,
    {
        let candidate = Rectangle { down_left_point, up_right_point };
        if candidate.are_all_points_valid(fluid_container_size as i64) {
            Some(candidate)
        } else {
            None
        }
    }

    /// Check if all parameters are valid.
    pub fn are_all_points_valid(&self, fluid_container_size: i64) -> (r: bool)
        ensures
            r == spec_points_valid(
                self.down_left_point,
                self.up_right_point,
                fluid_container_size as int,
            ),
    {
        0 <= self.down_left_point.0 && self.down_left_point.0 < self.up_right_point.0
            && self.up_right_point.0 < fluid_container_size && 0 <= self.down_left_point.1
            && self.down_left_point.1 < self.up_right_point.1 && self.up_right_point.1
            < fluid_container_size
    }
}

impl Default for Rectangle {
    /// The default obstacle: a square in the down-right area of the
    /// default-sized container.
    fn default() -> (r: Rectangle)
        ensures
            r.down_left_point == (118i64, 118i64),
            r.up_right_point == (127i64, 127i64),
    {
        Rectangle::new((118, 118), (127, 127), 128)
    }
}

impl Obstacle for Rectangle {
    open spec fn spec_corners(&self) -> (Point, Point) {
        (self.down_left_point, self.up_right_point)
    }

    fn get_approximate_points(&self) -> (r: Vec<Point>) {
        let mut points: Vec<Point> = Vec::new();
        points.push(self.down_left_point);
        points.push(self.up_right_point);
        points
    }
}

/// Enum describing the various obstacles' types. This is what unifies all the
/// obstacle shapes and is used for storing them in collections.
#[derive(Clone, Copy, PartialEq, Eq, Debug)]
pub enum ObstaclesType {
    /// Used for describing the [`Rectangle`] type.
    Rectangle(Rectangle),
}

impl Obstacle for ObstaclesType {
    open spec fn spec_corners(&self) -> (Point, Point) {
        match self {
            ObstaclesType::Rectangle(rectangle) => rectangle.spec_corners(),
        }
    }

    fn get_approximate_points(&self) -> (r: Vec<Point>) {
        match self {
            ObstaclesType::Rectangle(rectangle) => rectangle.get_approximate_points(),
        }
    }
}

} // verus!
