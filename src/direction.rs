use vstd::prelude::*;

use crate::input::Input;
use crate::Point;

verus! {

/// A step of one cell on the grid.
#[derive(Clone, Copy, Debug, PartialEq, Eq, Structural)]
pub enum Direction {
    Up,
    Down,
    Left,
    Right,
}

/// The change of column and row that a direction makes.
pub open spec fn delta(d: Direction) -> (int, int) {
    match d {
        Direction::Up => (0, -1),
        Direction::Down => (0, 1),
        Direction::Left => (-1, 0),
        Direction::Right => (1, 0),
    }
}

pub open spec fn in_usize(v: int) -> bool {
    0 <= v <= usize::MAX
}

/// The cell one step away, when both of its coordinates are machine indices.
pub open spec fn neighbor(p: Point, d: Direction) -> Option<Point> {
    let x = p.0 + delta(d).0;
    let y = p.1 + delta(d).1;
    if in_usize(x) && in_usize(y) {
        Some((x as usize, y as usize))
    } else {
        None
    }
}

pub open spec fn saturate(v: int) -> usize {
    if v < 0 {
        0
    } else if v > usize::MAX {
        usize::MAX
    } else {
        v as usize
    }
}

pub open spec fn is_horizontal(d: Direction) -> bool {
    d == Direction::Left || d == Direction::Right
}

/// The direction that a key stands for, if it stands for one.
pub open spec fn direction_of_input(input: Input) -> Option<Direction> {
    match input {
        Input::Up | Input::W => Some(Direction::Up),
        Input::Down | Input::S => Some(Direction::Down),
        Input::Left | Input::A => Some(Direction::Left),
        Input::Right | Input::D => Some(Direction::Right),
        _ => None,
    }
}

impl Direction {
    pub fn from_input(input: &Input) -> (r: Option<Direction>)
        ensures
            r == direction_of_input(*input),
    {
        match input {
            Input::Up | Input::W => Some(Direction::Up),
            Input::Down | Input::S => Some(Direction::Down),
            Input::Left | Input::A => Some(Direction::Left),
            Input::Right | Input::D => Some(Direction::Right),
            _ => None,
        }
    }

    /// Moves a point one step, clamping each coordinate to the range of `usize`.
    pub fn apply_to(&self, point: &Point) -> (r: Point)
        ensures
            r == (saturate(point.0 + delta(*self).0), saturate(point.1 + delta(*self).1)),
    {
        let (x, y) = *point;
        match self {
            Direction::Up => (x, y.saturating_sub(1)),
            Direction::Down => (x, y.saturating_add(1)),
            Direction::Left => (x.saturating_sub(1), y),
            Direction::Right => (x.saturating_add(1), y),
        }
    }

    /// The point one step away, or `None` where a coordinate would leave `usize`.
    pub fn next_from(&self, point: Point) -> (r: Option<Point>)
        ensures
            r == neighbor(point, *self),
    {
        let (x, y) = point;
        match self {
            Direction::Up => if y == 0 {
                None
            } else {
                Some((x, y - 1))
            },
            Direction::Down => if y == usize::MAX {
                None
            } else {
                Some((x, y + 1))
            },
            Direction::Left => if x == 0 {
                None
            } else {
                Some((x - 1, y))
            },
            Direction::Right => if x == usize::MAX {
                None
            } else {
                Some((x + 1, y))
            },
        }
    }
}

} // verus!
