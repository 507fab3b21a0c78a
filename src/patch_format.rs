use vstd::prelude::*;

verus! {

/// The diff dialect that a range, a line or a hunk belongs to.
#[derive(Clone, Copy, Debug, PartialEq, Eq, Structural)]
pub enum PatchFormat {
    NoFormat,
    Normal,
    Unified,
    Context,
    EditScript,
}

} // verus!
