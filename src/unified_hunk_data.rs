use vstd::prelude::*;

use crate::patch_format::PatchFormat;
use crate::patch_line::PatchLine;
use crate::range::Range;

verus! {

/// A unified-dialect hunk: its two ranges and its lines in diff order.
#[derive(Debug)]
pub struct UnifiedHunkData<'a> {
    f1_range: Range,
    f2_range: Range,
    lines: Vec<PatchLine<'a>>,
}

impl<'a> UnifiedHunkData<'a> {
    pub closed spec fn spec_f1_range(&self) -> Range {
        self.f1_range
    }

    pub closed spec fn spec_f2_range(&self) -> Range {
        self.f2_range
    }

    pub closed spec fn spec_lines(&self) -> Seq<PatchLine<'a>> {
        self.lines@
    }

    pub fn new(f1_range: Range, f2_range: Range, lines: Vec<PatchLine<'a>>) -> (r: Self)
        ensures
            r.spec_f1_range() == f1_range,
            r.spec_f2_range() == f2_range,
            r.spec_lines() == lines@,
    {
        Self { f1_range, f2_range, lines }
    }

    pub fn lines(&self) -> (r: &Vec<PatchLine<'a>>)
        ensures
            r@ == self.spec_lines(),
    {
        &self.lines
    }

    pub fn lines_mut(&mut self) -> (r: &mut Vec<PatchLine<'a>>)
        ensures
            r@ == old(self).spec_lines(),
            final(self).spec_lines() == final(r)@,
            final(self).spec_f1_range() == old(self).spec_f1_range(),
            final(self).spec_f2_range() == old(self).spec_f2_range(),
    {
        &mut self.lines
    }

    /// Appends a line; only unified lines and the no-newline marker belong here.
    pub fn add_patch_line(&mut self, patch_line: PatchLine<'a>)
        requires
            patch_line.spec_belongs_to(PatchFormat::Unified),
        ensures
            final(self).spec_lines() == old(self).spec_lines().push(patch_line),
            final(self).spec_f1_range() == old(self).spec_f1_range(),
            final(self).spec_f2_range() == old(self).spec_f2_range(),
    {
        self.lines.push(patch_line);
    }

    pub fn f1_range(&self) -> (r: &Range)
        ensures
            *r == self.spec_f1_range(),
    {
        &self.f1_range
    }

    pub fn f2_range(&self) -> (r: &Range)
        ensures
            *r == self.spec_f2_range(),
    {
        &self.f2_range
    }
}

} // verus!
