use vstd::prelude::*;

verus! {

/// Text placed between two non-empty fragments of the status string.
pub const SEPARATOR: &'static str = "  ";

/// Text placed before the joined fragments.
pub const PREFIX: &'static str = " ";

/// Text placed after the joined fragments.
pub const SUFFIX: &'static str = " ";

} // verus!
