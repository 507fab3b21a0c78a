use vstd::prelude::*;

use crate::edit_script_range_data::EditScriptHunkKind;
use crate::patch_format::PatchFormat;
use crate::patch_line::PatchLine;
use crate::range::Range;

verus! {

/// An edit-script hunk: the range and kind of its header and its lines,
/// the header line included, in diff order.
#[derive(Debug)]
pub struct EditScriptHunkData<'a> {
    range: Range,
    kind: EditScriptHunkKind,
    lines: Vec<PatchLine<'a>>,
}

impl<'a> EditScriptHunkData<'a> {
    pub closed spec fn spec_range(&self) -> Range {
        self.range
    }

    pub closed spec fn spec_kind(&self) -> EditScriptHunkKind {
        self.kind
    }

    pub closed spec fn spec_lines(&self) -> Seq<PatchLine<'a>> {
        self.lines@
    }

    pub fn new(range: Range, kind: EditScriptHunkKind, lines: Vec<PatchLine<'a>>) -> (r: Self)
        ensures
            r.spec_range() == range,
            r.spec_kind() == kind,
            r.spec_lines() == lines@,
    {
        Self { range, kind, lines }
    }

    pub fn lines(&self) -> (r: &Vec<PatchLine<'a>>)
        ensures
            r@ == self.spec_lines(),
    {
        &self.lines
    }

    /// Appends a line; only edit-script lines and the no-newline marker belong here.
    pub fn add_patch_line(&mut self, patch_line: PatchLine<'a>)
        requires
            patch_line.spec_belongs_to(PatchFormat::EditScript),
        ensures
            final(self).spec_lines() == old(self).spec_lines().push(patch_line),
            final(self).spec_range() == old(self).spec_range(),
            final(self).spec_kind() == old(self).spec_kind(),
    {
        self.lines.push(patch_line);
    }

    pub fn range(&self) -> (r: Range)
        ensures
            r == self.spec_range(),
    {
        self.range
    }

    pub fn kind(&self) -> (r: EditScriptHunkKind)
        ensures
            r == self.spec_kind(),
    {
        self.kind
    }
}

} // verus!
