use vstd::prelude::*;

verus! {

/// One key press, as the front ends report it.
#[derive(Clone, Copy, Debug, PartialEq, Eq, Structural)]
pub enum Input {
    Esc,
    Unknown,
    Quit,
    Q,
    R,
    W,
    A,
    S,
    D,
    Up,
    Down,
    Left,
    Right,
    Space,
    Comma,
    Period,
}

} // verus!

verus! {

/// The key that a typed character stands for, in the keyboard layout the game
/// is played with (`w`, `a`, `r`, `s` for the arrows; `p` to reload).
pub open spec fn input_of_char(c: char) -> Input {
    if c == ' ' {
        Input::Space
    } else if c == ',' {
        Input::Comma
    } else if c == '.' {
        Input::Period
    } else if c == 'q' {
        Input::Q
    } else if c == 'p' {
        Input::R
    } else if c == 'w' {
        Input::W
    } else if c == 'a' {
        Input::A
    } else if c == 'r' {
        Input::S
    } else if c == 's' {
        Input::D
    } else {
        Input::Unknown
    }
}

impl Input {
    pub fn from_char(c: char) -> (r: Input)
        ensures
            r == input_of_char(c),
    {
        if c == ' ' {
            Input::Space
        } else if c == ',' {
            Input::Comma
        } else if c == '.' {
            Input::Period
        } else if c == 'q' {
            Input::Q
        } else if c == 'p' {
            Input::R
        } else if c == 'w' {
            Input::W
        } else if c == 'a' {
            Input::A
        } else if c == 'r' {
            Input::S
        } else if c == 's' {
            Input::D
        } else {
            Input::Unknown
        }
    }
}

} // verus!
