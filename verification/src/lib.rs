//! A personal hierarchy of named spaces, each holding named items and
//! nested child spaces.

use vstd::prelude::*;

pub mod commands;
pub mod error;
pub mod item;
pub mod laws;
pub mod lemmas;
pub mod listing;
pub mod model;
pub mod search;
pub mod space;
pub mod text;

pub use error::NotFound;
pub use item::{Item, ItemBuilder};
pub use space::{Space, SpaceBuilder};

verus! {

/// Returns the library's greeting.
pub fn greet() -> (res: &'static str)
    ensures
        res@ == "Hello from puha-lib!"@,
{
    "Hello from puha-lib!"
}

} // verus!
