//! Axis-aligned rectangles, given by their centre and size.

use vstd::prelude::*;
use crate::physics::{clamped, saturate, Position};

verus! {

/// The four corners of a rectangle.
#[derive(Clone, Copy, Debug, PartialEq, Eq, Structural)]
pub struct RectangleCornersPositions {
    pub top_left: Position,
    pub top_right: Position,
    pub bottom_left: Position,
    pub bottom_right: Position,
}

/// Width and height of a rectangle.
#[derive(Clone, Copy, Debug, PartialEq, Eq, Structural)]
pub struct RectangleSize {
    pub height: u32,
    pub width: u32,
}

/// The size of a rectangle: the edge of a square, or width and height.
#[derive(Clone, Copy, Debug, PartialEq, Eq, Structural)]
pub enum Size {
    Square(u32),
    Rectangle(RectangleSize),
}

/// A rectangle centred on `position`.
#[derive(Clone, Copy, Debug, PartialEq, Eq, Structural)]
pub struct Rectangle {
    pub position: Position,
    pub size: Size,
}

impl Rectangle {
    /// Width and height of a size: a square's edge is both.
    pub open spec fn extent(size: Size) -> RectangleSize {
        match size {
            Size::Square(edge) => RectangleSize { width: edge, height: edge },
            Size::Rectangle(rectangle_size) => rectangle_size,
        }
    }

    /// Width and height of a size.
    pub fn to_rectangle_size(size: Size) -> (final_size: RectangleSize)
        ensures
            final_size == Self::extent(size),
    {
        match size {
            Size::Square(square_size) => RectangleSize { width: square_size, height: square_size },
            Size::Rectangle(rectangle_size) => rectangle_size,
        }
    }

    /// The corners: the centre moved by half the width and half the height,
    /// each half rounded down. A corner that would lie beyond an end of an
    /// axis lies at that end.
    pub open spec fn corners(self) -> RectangleCornersPositions {
        let size = Self::extent(self.size);
        let left = clamped(self.position.x - size.width / 2) as i32;
        let right = clamped(self.position.x + size.width / 2) as i32;
        let top = clamped(self.position.y - size.height / 2) as i32;
        let bottom = clamped(self.position.y + size.height / 2) as i32;
        RectangleCornersPositions {
            top_left: Position { x: left, y: top },
            top_right: Position { x: right, y: top },
            bottom_left: Position { x: left, y: bottom },
            bottom_right: Position { x: right, y: bottom },
        }
    }

    /// The corners of the rectangle.
    pub fn get_corners(&self) -> (corners: RectangleCornersPositions)
        ensures
            corners == self.corners(),
    {
        let size = Rectangle::to_rectangle_size(self.size);
        let half_width = (size.width / 2) as i128;
        let half_height = (size.height / 2) as i128;
        let left = saturate(self.position.x as i128 - half_width);
        let right = saturate(self.position.x as i128 + half_width);
        let top = saturate(self.position.y as i128 - half_height);
        let bottom = saturate(self.position.y as i128 + half_height);
        RectangleCornersPositions {
            top_left: Position { x: left, y: top },
            top_right: Position { x: right, y: top },
            bottom_left: Position { x: left, y: bottom },
            bottom_right: Position { x: right, y: bottom },
        }
    }

    /// Whether `position` lies strictly inside the rectangle: between its
    /// left and right corners and between its top and bottom corners, the
    /// edges left out.
    pub open spec fn contains(self, position: Position) -> bool {
        let corners = self.corners();
        &&& corners.top_left.x < position.x < corners.top_right.x
        &&& corners.top_left.y < position.y < corners.bottom_left.y
    }

    /// Whether `position` lies strictly inside the rectangle.
    pub fn contains_position(&self, position: Position) -> (inside: bool)
        ensures
            inside == self.contains(position),
    {
        let corners = self.get_corners();
        position.x > corners.top_left.x && position.x < corners.top_right.x && position.y
            > corners.top_left.y && position.y < corners.bottom_left.y
    }

    /// Whether a corner of `self` lies strictly inside `outside_rectangle`.
    /// The relation is not symmetric: a rectangle that encloses another has
    /// no corner inside it.
    pub open spec fn overlaps(self, outside_rectangle: Rectangle) -> bool {
        let corners = self.corners();
        ||| outside_rectangle.contains(corners.top_left)
        ||| outside_rectangle.contains(corners.top_right)
        ||| outside_rectangle.contains(corners.bottom_left)
        ||| outside_rectangle.contains(corners.bottom_right)
    }

    /// Whether a corner of `self` lies strictly inside `outside_rectangle`.
    pub fn over(&self, outside_rectangle: Rectangle) -> (overlapping: bool)
        ensures
            overlapping == self.overlaps(outside_rectangle),
    {
        let corners = self.get_corners();
        outside_rectangle.contains_position(corners.top_left)
            || outside_rectangle.contains_position(corners.top_right)
            || outside_rectangle.contains_position(corners.bottom_left)
            || outside_rectangle.contains_position(corners.bottom_right)
    }
}

} // verus!
