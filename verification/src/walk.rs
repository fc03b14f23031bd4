//! Which entries of a directory tree a run looks at.

use crate::text::begins_with_char;
use crate::text::ends_with;
use vstd::prelude::*;

verus! {

/// Whether an entry called `name` is hidden: a run passes over it, and
/// over all below it.
pub fn is_hidden(name: &str) -> (r: bool)
    ensures
        r == (name@.len() > 0 && name@[0] == '.'),
{
    begins_with_char(name, '.')
}

/// Whether a file called `name` is a manifest.
pub fn is_manifest(name: &str) -> (r: bool)
    ensures
        r == "Cargo.toml"@.is_suffix_of(name@),
{
    ends_with(name, "Cargo.toml")
}

} // verus!
