//! Circles and squares, and the area of each as a formula over its measurement.

use vstd::prelude::*;
use crate::measure::Measure;

verus! {

/// Why a shape has no area.
#[derive(Clone, Copy, Debug, PartialEq, Eq, Structural)]
pub enum AreaError {
    /// The radius of a circle is not greater than zero.
    InvalidRadius,
    /// The side length of a square is not greater than zero.
    InvalidLength,
}

impl AreaError {
    /// The reason, as text.
    pub open spec fn reason_text(self) -> Seq<char> {
        match self {
            AreaError::InvalidRadius => "Invalid radius size"@,
            AreaError::InvalidLength => "Invalid length size"@,
        }
    }

    /// The text shown to the user for this error.
    pub fn reason(&self) -> (text: &'static str)
        ensures
            text@ == self.reason_text(),
    {
        match self {
            AreaError::InvalidRadius => "Invalid radius size",
            AreaError::InvalidLength => "Invalid length size",
        }
    }
}

/// An area, as the formula that gives it: `base` squared, multiplied by π
/// where `times_pi` is set.
#[derive(Clone, Copy, Debug, PartialEq, Eq, Structural)]
pub struct Area {
    pub times_pi: bool,
    pub base: Measure,
}

/// A circle, given by its radius.
#[derive(Clone, Copy, Debug, PartialEq, Eq, Structural)]
pub struct Circle {
    pub radius: Measure,
}

/// A square, given by the length of its side.
#[derive(Clone, Copy, Debug, PartialEq, Eq, Structural)]
pub struct Square {
    pub length: Measure,
}

/// One of the shapes whose area can be asked for.
#[derive(Clone, Copy, Debug, PartialEq, Eq, Structural)]
pub enum Shape {
    Circle(Circle),
    Square(Square),
}

impl Circle {
    /// π × radius² where the radius is greater than zero, else an error.
    pub open spec fn area_spec(self) -> Result<Area, AreaError> {
        if self.radius.is_positive() {
            Ok(Area { times_pi: true, base: self.radius })
        } else {
            Err(AreaError::InvalidRadius)
        }
    }

    /// The area of the circle, or why it has none.
    pub fn area(&self) -> (r: Result<Area, AreaError>)
        ensures
            r == self.area_spec(),
    {
        if self.radius.exceeds_zero() {
            Ok(Area { times_pi: true, base: self.radius })
        } else {
            Err(AreaError::InvalidRadius)
        }
    }
}

impl Square {
    /// length² where the length is greater than zero, else an error.
    pub open spec fn area_spec(self) -> Result<Area, AreaError> {
        if self.length.is_positive() {
            Ok(Area { times_pi: false, base: self.length })
        } else {
            Err(AreaError::InvalidLength)
        }
    }

    /// The area of the square, or why it has none.
    pub fn area(&self) -> (r: Result<Area, AreaError>)
        ensures
            r == self.area_spec(),
    {
        if self.length.exceeds_zero() {
            Ok(Area { times_pi: false, base: self.length })
        } else {
            Err(AreaError::InvalidLength)
        }
    }
}

impl Shape {
    /// The area of the variant that the shape is.
    pub open spec fn area_spec(self) -> Result<Area, AreaError> {
        match self {
            Shape::Circle(circle) => circle.area_spec(),
            Shape::Square(square) => square.area_spec(),
        }
    }

    /// The area of the shape, or why it has none.
    pub fn area(&self) -> (r: Result<Area, AreaError>)
        ensures
            r == self.area_spec(),
    {
        match self {
            Shape::Circle(circle) => circle.area(),
            Shape::Square(square) => square.area(),
        }
    }
}

/// The area of a circle whose radius is greater than zero is π × radius².
pub proof fn lemma_circle_area(circle: Circle)
    requires
        circle.radius.is_positive(),
    ensures
        circle.area_spec() == Ok::<Area, AreaError>(Area { times_pi: true, base: circle.radius }),
        Shape::Circle(circle).area_spec() == circle.area_spec(),
{
}

/// The area of a square whose side is greater than zero is length².
pub proof fn lemma_square_area(square: Square)
    requires
        square.length.is_positive(),
    ensures
        square.area_spec() == Ok::<Area, AreaError>(Area { times_pi: false, base: square.length }),
        Shape::Square(square).area_spec() == square.area_spec(),
{
}

/// A circle whose radius is zero or below zero has no area, and the error
/// names the radius.
pub proof fn lemma_circle_without_area(circle: Circle)
    requires
        circle.radius.is_zero() || circle.radius.is_negative(),
    ensures
        circle.area_spec() == Err::<Area, AreaError>(AreaError::InvalidRadius),
        Shape::Circle(circle).area_spec() == Err::<Area, AreaError>(AreaError::InvalidRadius),
        AreaError::InvalidRadius.reason_text() == "Invalid radius size"@,
{
}

/// A square whose side is zero or below zero has no area, and the error
/// names the length.
pub proof fn lemma_square_without_area(square: Square)
    requires
        square.length.is_zero() || square.length.is_negative(),
    ensures
        square.area_spec() == Err::<Area, AreaError>(AreaError::InvalidLength),
        Shape::Square(square).area_spec() == Err::<Area, AreaError>(AreaError::InvalidLength),
        AreaError::InvalidLength.reason_text() == "Invalid length size"@,
{
}

} // verus!
