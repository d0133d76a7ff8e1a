//! What the name of an archive entry says about it.

use vstd::prelude::*;

verus! {

/// The byte that ends the name of a directory.
pub const SEPARATOR: u8 = 0x2f;

/// Whether an entry's name, given as its bytes, is that of a directory:
/// it ends in a slash. Such an entry has no contents to extract.
pub fn is_directory_name(name: &[u8]) -> (directory: bool)
    ensures
        directory == (name@.len() > 0 && name@.last() == SEPARATOR),
{
    let len = name.len();
    len > 0 && name[len - 1] == SEPARATOR
}

} // verus!
