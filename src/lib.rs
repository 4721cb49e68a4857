pub mod args;
pub mod behaviour;
pub mod direction;
pub mod editor;
pub mod game;
pub mod input;
pub mod laws;
pub mod level;
mod lemmas;
pub mod model;
pub mod objects;
pub mod request;
pub mod text;

pub use direction::Direction;
pub use input::Input;
pub use objects::Object;
pub use level::Level;
pub use request::{Request, State};

use vstd::prelude::*;

verus! {

/// A grid position: (column, row), both from zero.
pub type Point = (usize, usize);

} // verus!
