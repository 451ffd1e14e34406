//! The turtle: a position, a heading and a pen.
//!
//! The turtle decides where a movement starts, which way it goes and
//! whether it draws; where it ends is for the drawing surface to say. A
//! movement is therefore planned here, carried out by the embedding
//! program, and completed here with the end point that came back.

use vstd::prelude::*;
use crate::interpreter::errors::{ExecutionError, ExecutionErrorView};
use crate::number::Number;
use crate::parser::ast::Action;

verus! {

#[derive(Debug, Clone, Copy, PartialEq, Eq)]
pub struct Turtle {
    pub x: Number,
    pub y: Number,
    /// Degrees, where 0 is up. Never normalised.
    pub heading: i32,
    pub pen_down: bool,
    /// An index into the palette of sixteen colours.
    pub pen_color: usize,
}

/// A straight movement for the drawing surface to carry out: from the point
/// (`x`, `y`), `distance` along `direction` degrees, as a stroke of the given
/// `colour` where `draw` is set and without a trace where it is not.
#[derive(Debug, Clone, Copy, PartialEq, Eq)]
pub struct Movement {
    pub x: Number,
    pub y: Number,
    pub direction: i32,
    pub distance: Number,
    pub draw: bool,
    /// Red, green and blue.
    pub colour: (u8, u8, u8),
}

/// The sixteen colours of the palette, as red, green and blue.
pub open spec fn palette(index: int) -> (u8, u8, u8) {
    if index == 0 {
        (0u8, 0u8, 0u8)
    } else if index == 1 {
        (0u8, 0u8, 255u8)
    } else if index == 2 {
        (0u8, 255u8, 255u8)
    } else if index == 3 {
        (0u8, 255u8, 0u8)
    } else if index == 4 {
        (255u8, 0u8, 0u8)
    } else if index == 5 {
        (255u8, 0u8, 255u8)
    } else if index == 6 {
        (255u8, 255u8, 0u8)
    } else if index == 7 {
        (255u8, 255u8, 255u8)
    } else if index == 8 {
        (165u8, 42u8, 42u8)
    } else if index == 9 {
        (210u8, 180u8, 140u8)
    } else if index == 10 {
        (34u8, 139u8, 34u8)
    } else if index == 11 {
        (127u8, 255u8, 212u8)
    } else if index == 12 {
        (250u8, 128u8, 114u8)
    } else if index == 13 {
        (128u8, 0u8, 128u8)
    } else if index == 14 {
        (255u8, 165u8, 0u8)
    } else {
        (128u8, 128u8, 128u8)
    }
}

/// The entry of the static table `unsvg::COLORS` at `index`, handed back as
/// its `red`, `green` and `blue` fields. The contract says that the table
/// holds the sixteen colours listed above, in that order.
#[verifier::external_body]
fn palette_entry(index: usize) -> (r: (u8, u8, u8))
    requires
        index < 16,
    ensures
        r == palette(index as int),
{
    let colour = unsvg::COLORS[index];
    (colour.red, colour.green, colour.blue)
}

/// The remainder of `v` by 360 with the sign of `v`.
pub open spec fn wrapped(v: int) -> int {
    if v >= 0 {
        v % 360
    } else {
        -((-v) % 360)
    }
}

/// The direction in which an action moves a turtle with the given heading:
/// forward along the heading, back against it, left and right across it.
pub open spec fn direction_of(action: Action, heading: int) -> int {
    match action {
        Action::Back => wrapped(heading + 180),
        Action::Left => wrapped(heading - 90),
        Action::Right => wrapped(heading + 90),
        _ => heading,
    }
}

fn wrap(v: i64) -> (r: i32)
    requires
        -0x1_0000_0000 <= v <= 0x1_0000_0000,
    ensures
        r == wrapped(v as int),
{
    if v >= 0 {
        (v % 360) as i32
    } else {
        let m: i64 = (0 - v) % 360;
        (0 - m) as i32
    }
}

impl Turtle {
    /// What a movement from this turtle's state asks of the drawing surface.
    pub open spec fn movement(self, direction: int, distance: Number) -> Movement {
        Movement {
            x: self.x,
            y: self.y,
            direction: direction as i32,
            distance,
            draw: self.pen_down,
            colour: palette(self.pen_color as int),
        }
    }

    /// What an action of the moving kind asks of the drawing surface, or
    /// the error where the pen colour is outside the palette.
    pub open spec fn plan(self, action: Action, distance: Number) -> Result<
        Movement,
        ExecutionErrorView,
    > {
        if self.pen_color < 16 {
            Ok(self.movement(direction_of(action, self.heading as int), distance))
        } else {
            Err(ExecutionErrorView::ColorIndexOutOfRange)
        }
    }

    /// A turtle at the centre of a canvas of the given size: heading up, pen
    /// up, colour 7.
    pub fn new(width: u32, height: u32) -> (r: Turtle)
        ensures
            r == (Turtle {
                x: Number::of_int(width as int / 2),
                y: Number::of_int(height as int / 2),
                heading: 0,
                pen_down: false,
                pen_color: 7,
            }),
    {
        Turtle {
            x: Number::from_u32(width / 2),
            y: Number::from_u32(height / 2),
            heading: 0,
            pen_down: false,
            pen_color: 7,
        }
    }

    pub fn pen_down(&mut self)
        ensures
            *final(self) == (Turtle { pen_down: true, ..*old(self) }),
    {
        self.pen_down = true;
    }

    pub fn pen_up(&mut self)
        ensures
            *final(self) == (Turtle { pen_down: false, ..*old(self) }),
    {
        self.pen_down = false;
    }

    /// Sets the pen colour to an index of the palette; any other index is
    /// refused and leaves the turtle as it was.
    pub fn set_pen_color(&mut self, color: usize) -> (r: Result<(), ExecutionError>)
        ensures
            match r {
                Ok(_) => color <= 15 && *final(self) == (Turtle { pen_color: color, ..*old(self) }),
                Err(e) => color > 15 && e@ == ExecutionErrorView::ColorIndexOutOfRange && *final(self) == *old(self),
            },
    {
        if color > 15 {
            Err(ExecutionError::color_index_out_of_range())
        } else {
            self.pen_color = color;
            Ok(())
        }
    }

    /// Adds `degrees` to the heading, which is not normalised. A sum
    /// outside the 32-bit range is refused and leaves the turtle as it was.
    pub fn turn(&mut self, degrees: i32) -> (r: Result<(), ExecutionError>)
        ensures
            match r {
                Ok(_) => final(self).heading == old(self).heading + degrees && *final(self) == (
                Turtle { heading: final(self).heading, ..*old(self) }),
                Err(e) => e@ == ExecutionErrorView::HeadingOutOfRange && *final(self) == *old(self)
                    && !(i32::MIN <= old(self).heading + degrees <= i32::MAX),
            },
    {
        let sum: i64 = self.heading as i64 + degrees as i64;
        if sum < i32::MIN as i64 || sum > i32::MAX as i64 {
            Err(ExecutionError::heading_out_of_range())
        } else {
            self.heading = sum as i32;
            Ok(())
        }
    }

    /// Sets the heading, which is not normalised.
    pub fn set_heading(&mut self, degrees: i32)
        ensures
            *final(self) == (Turtle { heading: degrees, ..*old(self) }),
    {
        self.heading = degrees;
    }

    /// Sets the x coordinate. Nothing is drawn, whatever the pen's state.
    pub fn set_x(&mut self, x: Number)
        ensures
            *final(self) == (Turtle { x, ..*old(self) }),
    {
        self.x = x;
    }

    /// Sets the y coordinate. Nothing is drawn, whatever the pen's state.
    pub fn set_y(&mut self, y: Number)
        ensures
            *final(self) == (Turtle { y, ..*old(self) }),
    {
        self.y = y;
    }

    /// Plans a movement along the heading.
    pub fn forward(&self, distance: Number) -> (r: Result<Movement, ExecutionError>)
        ensures
            outcome(r) == self.plan(Action::Forward, distance),
    {
        self.move_turtle(self.heading, distance)
    }

    /// Plans a movement against the heading.
    pub fn back(&self, distance: Number) -> (r: Result<Movement, ExecutionError>)
        ensures
            outcome(r) == self.plan(Action::Back, distance),
    {
        self.move_turtle(wrap(self.heading as i64 + 180), distance)
    }

    /// Plans a movement to the left of the heading.
    pub fn left(&self, distance: Number) -> (r: Result<Movement, ExecutionError>)
        ensures
            outcome(r) == self.plan(Action::Left, distance),
    {
        self.move_turtle(wrap(self.heading as i64 - 90), distance)
    }

    /// Plans a movement to the right of the heading.
    pub fn right(&self, distance: Number) -> (r: Result<Movement, ExecutionError>)
        ensures
            outcome(r) == self.plan(Action::Right, distance),
    {
        self.move_turtle(wrap(self.heading as i64 + 90), distance)
    }

    /// Plans a movement of `distance` in the direction `heading`: a stroke
    /// in the pen's colour where the pen is down, no trace where it is up.
    pub fn move_turtle(&self, heading: i32, distance: Number) -> (r: Result<
        Movement,
        ExecutionError,
    >)
        ensures
            match r {
                Ok(m) => self.pen_color < 16 && m == self.movement(heading as int, distance),
                Err(e) => self.pen_color >= 16 && e@ == ExecutionErrorView::ColorIndexOutOfRange,
            },
    {
        if self.pen_color < 16 {
            Ok(
                Movement {
                    x: self.x,
                    y: self.y,
                    direction: heading,
                    distance,
                    draw: self.pen_down,
                    colour: palette_entry(self.pen_color),
                },
            )
        } else {
            Err(ExecutionError::color_index_out_of_range())
        }
    }

    /// Completes a movement: the turtle is where the drawing surface says
    /// the movement ended.
    pub fn arrive(&mut self, x: Number, y: Number)
        ensures
            *final(self) == (Turtle { x, y, ..*old(self) }),
    {
        self.x = x;
        self.y = y;
    }
}

/// A planning result with its error taken by its view.
pub open spec fn outcome(r: Result<Movement, ExecutionError>) -> Result<
    Movement,
    ExecutionErrorView,
> {
    match r {
        Ok(m) => Ok(m),
        Err(e) => Err(e@),
    }
}

} // verus!
