use vstd::prelude::*;

verus! {

/// The failures the library surfaces: a malformed or missing argument,
/// rejected before any store access, or a failure of the underlying store.
/// A missing entry is not an error: lookups return `None` for it.
#[derive(Clone, Copy, Debug, PartialEq, Eq, Structural)]
pub enum LogError {
    InvalidArgument,
    Storage,
}

} // verus!
