use vstd::prelude::*;

use crate::patch_format::PatchFormat;
use crate::patch_line::PatchLine;
use crate::range::Range;

verus! {

/// A normal-dialect hunk: the ranges of its header and its lines, the
/// header line included, in diff order.
#[derive(Debug)]
pub struct NormalHunkData<'a> {
    range_left: Range,
    range_right: Range,
    lines: Vec<PatchLine<'a>>,
}

impl<'a> NormalHunkData<'a> {
    pub closed spec fn spec_range_left(&self) -> Range {
        self.range_left
    }

    pub closed spec fn spec_range_right(&self) -> Range {
        self.range_right
    }

    pub closed spec fn spec_lines(&self) -> Seq<PatchLine<'a>> {
        self.lines@
    }

    pub fn new(range_left: Range, range_right: Range, lines: Vec<PatchLine<'a>>) -> (r: Self)
        ensures
            r.spec_range_left() == range_left,
            r.spec_range_right() == range_right,
            r.spec_lines() == lines@,
    {
        Self { range_left, range_right, lines }
    }

    pub fn lines(&self) -> (r: &Vec<PatchLine<'a>>)
        ensures
            r@ == self.spec_lines(),
    {
        &self.lines
    }

    /// Appends a line; only normal lines and the no-newline marker belong here.
    pub fn add_patch_line(&mut self, patch_line: PatchLine<'a>)
        requires
            patch_line.spec_belongs_to(PatchFormat::Normal),
        ensures
            final(self).spec_lines() == old(self).spec_lines().push(patch_line),
            final(self).spec_range_left() == old(self).spec_range_left(),
            final(self).spec_range_right() == old(self).spec_range_right(),
    {
        self.lines.push(patch_line);
    }

    pub fn range_left(&self) -> (r: &Range)
        ensures
            *r == self.spec_range_left(),
    {
        &self.range_left
    }

    pub fn range_right(&self) -> (r: &Range)
        ensures
            *r == self.spec_range_right(),
    {
        &self.range_right
    }
}

} // verus!
