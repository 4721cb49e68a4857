use vstd::prelude::*;

use crate::Point;

verus! {

/// How a level ends.
#[derive(Clone, Copy, Debug, PartialEq, Eq, Structural)]
pub enum State {
    Win,
    Lose,
}

/// A change that an object's behaviour asks the level to make.
#[derive(Clone, Copy, Debug, PartialEq, Eq)]
pub enum Request {
    AddScore,
    AddMaxScore,
    UpdateState(State),
    /// Move the object at the first point to the second, leaving a void behind.
    MoveObj(Point, Point),
}

} // verus!
