use vstd::prelude::*;

use crate::range::Range;

verus! {

/// What an edit-script hunk does, from the letter that ends its header line.
#[derive(Clone, Copy, Debug, PartialEq, Eq, Structural)]
pub enum EditScriptHunkKind {
    Insert,
    Delete,
    Change,
}

/// The header line of an edit-script hunk, with its range and kind.
#[derive(Clone, Debug)]
pub struct EditScriptRangeData<'a> {
    line: &'a str,
    range: Range,
    kind: EditScriptHunkKind,
}

impl<'a> EditScriptRangeData<'a> {
    pub closed spec fn spec_line(&self) -> Seq<char> {
        self.line@
    }

    pub closed spec fn spec_range(&self) -> Range {
        self.range
    }

    pub closed spec fn spec_kind(&self) -> EditScriptHunkKind {
        self.kind
    }

    pub fn new(line: &'a str, range: Range, kind: EditScriptHunkKind) -> (r: Self)
        ensures
            r.spec_line() == line@,
            r.spec_range() == range,
            r.spec_kind() == kind,
    {
        Self { line, range, kind }
    }

    pub fn line(&self) -> (r: &str)
        ensures
            r@ == self.spec_line(),
    {
        self.line
    }

    pub fn kind(&self) -> (r: EditScriptHunkKind)
        ensures
            r == self.spec_kind(),
    {
        self.kind
    }

    pub fn range(&self) -> (r: Range)
        ensures
            r == self.spec_range(),
    {
        self.range
    }
}

} // verus!
