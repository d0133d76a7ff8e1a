//! The access-pattern hint given to the readahead cache.

use vstd::prelude::*;

verus! {

/// How callers expect to move through the resource.
#[derive(Debug, Clone, Copy, PartialEq, Eq, Structural)]
pub enum AccessPattern {
    /// Reads may land anywhere, in any order.
    RandomAccess,
    /// Reads start at the beginning and move towards the end, each byte
    /// being wanted once.
    SequentialIsh,
}

impl Default for AccessPattern {
    fn default() -> (pattern: Self)
        ensures
            pattern == AccessPattern::RandomAccess,
    {
        AccessPattern::RandomAccess
    }
}

} // verus!
