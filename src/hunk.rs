use vstd::prelude::*;

use crate::context_hunk_data::{added_line, ContextHunkData};
use crate::edit_script_hunk_data::EditScriptHunkData;
use crate::normal_hunk_data::NormalHunkData;
use crate::patch_format::PatchFormat;
use crate::patch_line::PatchLine;
use crate::unified_hunk_data::UnifiedHunkData;

verus! {

/// `after` is `before` with `line` appended to its lines (for a context
/// hunk, to the side it belongs to); its ranges are unchanged.
pub open spec fn appended<'a>(before: Hunk<'a>, after: Hunk<'a>, line: PatchLine<'a>) -> bool {
    match (before, after) {
        (Hunk::Normal(a), Hunk::Normal(b)) => {
            &&& b.spec_lines() == a.spec_lines().push(line)
            &&& b.spec_range_left() == a.spec_range_left()
            &&& b.spec_range_right() == a.spec_range_right()
        },
        (Hunk::Unified(a), Hunk::Unified(b)) => {
            &&& b.spec_lines() == a.spec_lines().push(line)
            &&& b.spec_f1_range() == a.spec_f1_range()
            &&& b.spec_f2_range() == a.spec_f2_range()
        },
        (Hunk::EditScript(a), Hunk::EditScript(b)) => {
            &&& b.spec_lines() == a.spec_lines().push(line)
            &&& b.spec_range() == a.spec_range()
            &&& b.spec_kind() == a.spec_kind()
        },
        (Hunk::Context(a), Hunk::Context(b)) => added_line(a, b, line),
        _ => false,
    }
}

/// A hunk of one of the four dialects.
#[derive(Debug)]
pub enum Hunk<'a> {
    Normal(NormalHunkData<'a>),
    Unified(UnifiedHunkData<'a>),
    Context(ContextHunkData<'a>),
    EditScript(EditScriptHunkData<'a>),
}

impl<'a> Hunk<'a> {
    pub open spec fn spec_kind(&self) -> PatchFormat {
        match self {
            Hunk::Normal(_) => PatchFormat::Normal,
            Hunk::Unified(_) => PatchFormat::Unified,
            Hunk::Context(_) => PatchFormat::Context,
            Hunk::EditScript(_) => PatchFormat::EditScript,
        }
    }

    pub fn kind(&self) -> (r: PatchFormat)
        ensures
            r == self.spec_kind(),
    {
        match self {
            Hunk::Normal(_) => PatchFormat::Normal,
            Hunk::Unified(_) => PatchFormat::Unified,
            Hunk::Context(_) => PatchFormat::Context,
            Hunk::EditScript(_) => PatchFormat::EditScript,
        }
    }

    /// Appends a line to the hunk's data; the line must belong to the
    /// hunk's dialect.
    pub fn add_patch_line(&mut self, patch_line: PatchLine<'a>)
        requires
            patch_line.spec_belongs_to(old(self).spec_kind()),
        ensures
            final(self).spec_kind() == old(self).spec_kind(),
            appended(*old(self), *final(self), patch_line),
    {
        match self {
            Hunk::Normal(d) => d.add_patch_line(patch_line),
            Hunk::Unified(d) => d.add_patch_line(patch_line),
            Hunk::Context(d) => d.add_patch_line(patch_line),
            Hunk::EditScript(d) => d.add_patch_line(patch_line),
        }
    }
}

} // verus!
