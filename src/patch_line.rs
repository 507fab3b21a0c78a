use vstd::prelude::*;

use crate::edit_script_range_data::EditScriptRangeData;
use crate::patch_format::PatchFormat;
use crate::range::Range;

verus! {

/// What a normal-dialect header such as `2,3c4` does.
#[derive(Clone, Copy, Debug, PartialEq, Eq, Structural)]
pub enum NormalRangeKind {
    Insert,
    Change,
    Delete,
}

/// The header line of a normal-dialect hunk: left and right ranges and kind.
#[derive(Clone, Debug)]
pub struct NormalRangeData<'a> {
    pub line: &'a str,
    pub range_left: Range,
    pub range_right: Range,
    pub kind: NormalRangeKind,
}

impl<'a> NormalRangeData<'a> {
    pub fn new(line: &'a str, range_left: Range, range_right: Range, kind: NormalRangeKind) -> (r:
        Self)
        ensures
            r.line == line,
            r.range_left == range_left,
            r.range_right == range_right,
            r.kind == kind,
    {
        NormalRangeData { line, range_left, range_right, kind }
    }

    pub fn range_left(&self) -> (r: Range)
        ensures
            r == self.range_left,
    {
        self.range_left
    }

    pub fn range_right(&self) -> (r: Range)
        ensures
            r == self.range_right,
    {
        self.range_right
    }

    pub fn kind(&self) -> (r: NormalRangeKind)
        ensures
            r == self.kind,
    {
        self.kind
    }
}

/// One line of a hunk, with its role and the text to emit for it.
#[derive(Clone, Debug)]
pub enum PatchLine<'a> {
    NormalRange(NormalRangeData<'a>),
    NormalChangeSeparator(&'a str),
    NormalLineInsert(&'a str),
    NormalLineDelete(&'a str),
    UnifiedHunkHeader(&'a str),
    UnifiedDeleted(&'a str),
    UnifiedUnchanged(&'a str),
    UnifiedInserted(&'a str),
    ContextHunkSeparator(&'a str),
    ContextHunkRange(&'a str, Range),
    ContextInserted(&'a str, bool),
    ContextDeleted(&'a str, bool),
    ContextUnchanged(&'a str),
    EditScriptRange(EditScriptRangeData<'a>),
    EditScriptInsert(&'a str),
    EditScriptChange(&'a str),
    NoNewLine(&'a str),
}

impl<'a> PatchLine<'a> {
    pub open spec fn spec_kind(&self) -> PatchFormat {
        match self {
            PatchLine::NormalRange(_)
            | PatchLine::NormalChangeSeparator(_)
            | PatchLine::NormalLineInsert(_)
            | PatchLine::NormalLineDelete(_) => PatchFormat::Normal,
            PatchLine::UnifiedHunkHeader(_)
            | PatchLine::UnifiedDeleted(_)
            | PatchLine::UnifiedUnchanged(_)
            | PatchLine::UnifiedInserted(_) => PatchFormat::Unified,
            PatchLine::ContextHunkSeparator(_)
            | PatchLine::ContextHunkRange(_, _)
            | PatchLine::ContextInserted(_, _)
            | PatchLine::ContextDeleted(_, _)
            | PatchLine::ContextUnchanged(_) => PatchFormat::Context,
            PatchLine::EditScriptRange(_)
            | PatchLine::EditScriptInsert(_)
            | PatchLine::EditScriptChange(_) => PatchFormat::EditScript,
            PatchLine::NoNewLine(_) => PatchFormat::NoFormat,
        }
    }

    /// A line may stand in a hunk of `format`: it is of that dialect, or it
    /// is the no-newline marker that all dialects share.
    pub open spec fn spec_belongs_to(&self, format: PatchFormat) -> bool {
        self.spec_kind() == format || self is NoNewLine
    }

    pub open spec fn spec_text(&self) -> Seq<char> {
        match self {
            PatchLine::NormalRange(d) => d.line@,
            PatchLine::NormalChangeSeparator(t) => t@,
            PatchLine::NormalLineInsert(t) => t@,
            PatchLine::NormalLineDelete(t) => t@,
            PatchLine::UnifiedHunkHeader(t) => t@,
            PatchLine::UnifiedDeleted(t) => t@,
            PatchLine::UnifiedUnchanged(t) => t@,
            PatchLine::UnifiedInserted(t) => t@,
            PatchLine::ContextHunkSeparator(t) => t@,
            PatchLine::ContextHunkRange(t, _) => t@,
            PatchLine::ContextInserted(t, _) => t@,
            PatchLine::ContextDeleted(t, _) => t@,
            PatchLine::ContextUnchanged(t) => t@,
            PatchLine::EditScriptRange(d) => d.spec_line(),
            PatchLine::EditScriptInsert(t) => t@,
            PatchLine::EditScriptChange(t) => t@,
            PatchLine::NoNewLine(t) => t@,
        }
    }

    /// The dialect of the line; the shared no-newline marker has none.
    pub fn kind(&self) -> (r: PatchFormat)
        ensures
            r == self.spec_kind(),
    {
        match self {
            PatchLine::NormalRange(_)
            | PatchLine::NormalChangeSeparator(_)
            | PatchLine::NormalLineInsert(_)
            | PatchLine::NormalLineDelete(_) => PatchFormat::Normal,
            PatchLine::UnifiedHunkHeader(_)
            | PatchLine::UnifiedDeleted(_)
            | PatchLine::UnifiedUnchanged(_)
            | PatchLine::UnifiedInserted(_) => PatchFormat::Unified,
            PatchLine::ContextHunkSeparator(_)
            | PatchLine::ContextHunkRange(_, _)
            | PatchLine::ContextInserted(_, _)
            | PatchLine::ContextDeleted(_, _)
            | PatchLine::ContextUnchanged(_) => PatchFormat::Context,
            PatchLine::EditScriptRange(_)
            | PatchLine::EditScriptInsert(_)
            | PatchLine::EditScriptChange(_) => PatchFormat::EditScript,
            PatchLine::NoNewLine(_) => PatchFormat::NoFormat,
        }
    }

    pub fn belongs_to(&self, format: PatchFormat) -> (r: bool)
        ensures
            r == self.spec_belongs_to(format),
    {
        let k = self.kind();
        k == format || matches!(self, PatchLine::NoNewLine(_))
    }

    /// The text of the line as it is written out.
    pub fn original_line(&self) -> (r: &str)
        ensures
            r@ == self.spec_text(),
    {
        match self {
            PatchLine::NormalRange(d) => d.line,
            PatchLine::NormalChangeSeparator(t) => t,
            PatchLine::NormalLineInsert(t) => t,
            PatchLine::NormalLineDelete(t) => t,
            PatchLine::UnifiedHunkHeader(t) => t,
            PatchLine::UnifiedDeleted(t) => t,
            PatchLine::UnifiedUnchanged(t) => t,
            PatchLine::UnifiedInserted(t) => t,
            PatchLine::ContextHunkSeparator(t) => t,
            PatchLine::ContextHunkRange(t, _) => t,
            PatchLine::ContextInserted(t, _) => t,
            PatchLine::ContextDeleted(t, _) => t,
            PatchLine::ContextUnchanged(t) => t,
            PatchLine::EditScriptRange(d) => d.line(),
            PatchLine::EditScriptInsert(t) => t,
            PatchLine::EditScriptChange(t) => t,
            PatchLine::NoNewLine(t) => t,
        }
    }

    pub fn line(&self) -> (r: &str)
        ensures
            r@ == self.spec_text(),
    {
        self.original_line()
    }
}

} // verus!
