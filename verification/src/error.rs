//! The ways a lookup by name can fail.

use vstd::prelude::*;

verus! {

/// A name that did not resolve, by the role the name played.
#[derive(Debug, Clone, Copy, PartialEq, Eq, Structural)]
pub enum NotFound {
    /// The space that an operation works on.
    Space,
    /// The space that items are moved out of.
    SourceSpace,
    /// The space that items or a space are moved into.
    DestinationSpace,
    /// The space whose direct child is deleted.
    ParentSpace,
    /// An item of a space.
    Item,
}

impl NotFound {
    /// A description of the failure, fit for an error message.
    pub fn message(&self) -> (res: &'static str)
        ensures
            res@ == match *self {
                NotFound::Space => "space not found"@,
                NotFound::SourceSpace => "source space not found"@,
                NotFound::DestinationSpace => "destination space not found"@,
                NotFound::ParentSpace => "parent space not found"@,
                NotFound::Item => "item not found"@,
            },
    {
        match self {
            NotFound::Space => "space not found",
            NotFound::SourceSpace => "source space not found",
            NotFound::DestinationSpace => "destination space not found",
            NotFound::ParentSpace => "parent space not found",
            NotFound::Item => "item not found",
        }
    }
}

} // verus!
