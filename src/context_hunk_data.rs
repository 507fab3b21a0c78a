use vstd::prelude::*;

use crate::patch_format::PatchFormat;
use crate::patch_line::PatchLine;
use crate::range::Range;

verus! {

/// Every line is structure only: a range header or a separator.
pub open spec fn is_placeholder(lines: Seq<PatchLine>) -> bool {
    forall|i: int|
        0 <= i < lines.len() ==> (#[trigger] lines[i] is ContextHunkRange || lines[i] is ContextHunkSeparator)
}

/// The texts of the changed lines (`ContextInserted` marked as a change), in order.
pub open spec fn changes(lines: Seq<PatchLine>) -> Seq<Seq<char>>
    decreases lines.len(),
{
    if lines.len() == 0 {
        Seq::empty()
    } else {
        let r = changes(lines.drop_last());
        match lines.last() {
            PatchLine::ContextInserted(t, true) => r.push(t@),
            _ => r,
        }
    }
}

/// `after` is `before` with `line` appended to the side it belongs to: the
/// first range header opens the original side and sets `f1_range`, the next
/// one opens the modified side and sets `f2_range`; other lines go to the
/// side that is open.
pub open spec fn added_line<'a>(
    before: ContextHunkData<'a>,
    after: ContextHunkData<'a>,
    patch_line: PatchLine<'a>,
) -> bool {
    match patch_line {
        PatchLine::ContextHunkRange(_, r) => if before.spec_f1_range() is None {
            &&& after.spec_f1_range() == Some(r)
            &&& after.spec_f2_range() == before.spec_f2_range()
            &&& after.spec_original_lines() == before.spec_original_lines().push(
                patch_line,
            )
            &&& after.spec_modified_lines() == before.spec_modified_lines()
        } else {
            &&& after.spec_f1_range() == before.spec_f1_range()
            &&& after.spec_f2_range() == Some(r)
            &&& after.spec_original_lines() == before.spec_original_lines()
            &&& after.spec_modified_lines() == before.spec_modified_lines().push(
                patch_line,
            )
        },
        _ => {
            &&& after.spec_f1_range() == before.spec_f1_range()
            &&& after.spec_f2_range() == before.spec_f2_range()
            &&& if before.spec_f2_range() is None {
                &&& after.spec_original_lines()
                    == before.spec_original_lines().push(patch_line)
                &&& after.spec_modified_lines() == before.spec_modified_lines()
            } else {
                &&& after.spec_original_lines() == before.spec_original_lines()
                &&& after.spec_modified_lines()
                    == before.spec_modified_lines().push(patch_line)
            }
        },
    }
}

/// A context-dialect hunk. Its lines fall into the original side (up to the
/// second range header) and the modified side (from it on).
#[derive(Debug)]
pub struct ContextHunkData<'a> {
    f1_range: Option<Range>,
    f2_range: Option<Range>,
    original_lines: Vec<PatchLine<'a>>,
    modified_lines: Vec<PatchLine<'a>>,
}

impl<'a> ContextHunkData<'a> {
    pub closed spec fn spec_f1_range(&self) -> Option<Range> {
        self.f1_range
    }

    pub closed spec fn spec_f2_range(&self) -> Option<Range> {
        self.f2_range
    }

    pub closed spec fn spec_original_lines(&self) -> Seq<PatchLine<'a>> {
        self.original_lines@
    }

    pub closed spec fn spec_modified_lines(&self) -> Seq<PatchLine<'a>> {
        self.modified_lines@
    }

    /// The lines that application walks: the modified side where the
    /// original side is only a placeholder, else the original side.
    pub open spec fn spec_effective_lines(&self) -> Seq<PatchLine<'a>> {
        if is_placeholder(self.spec_original_lines()) {
            self.spec_modified_lines()
        } else {
            self.spec_original_lines()
        }
    }

    pub fn new() -> (r: Self)
        ensures
            r.spec_f1_range() is None,
            r.spec_f2_range() is None,
            r.spec_original_lines() == Seq::<PatchLine<'a>>::empty(),
            r.spec_modified_lines() == Seq::<PatchLine<'a>>::empty(),
    {
        Self {
            f1_range: None,
            f2_range: None,
            original_lines: Vec::new(),
            modified_lines: Vec::new(),
        }
    }

    /// Appends a line to its side.
    pub fn add_patch_line(&mut self, patch_line: PatchLine<'a>)
        requires
            patch_line.spec_belongs_to(PatchFormat::Context),
        ensures
            added_line(*old(self), *final(self), patch_line),
    {
        match patch_line {
            PatchLine::ContextHunkRange(_, r) => {
                if self.f1_range.is_none() {
                    self.f1_range = Some(r);
                    self.original_lines.push(patch_line);
                } else {
                    self.f2_range = Some(r);
                    self.modified_lines.push(patch_line);
                }
            },
            _ => {
                if self.f2_range.is_none() {
                    self.original_lines.push(patch_line);
                } else {
                    self.modified_lines.push(patch_line);
                }
            },
        }
    }

    pub fn f1_range(&self) -> (r: Option<Range>)
        ensures
            r == self.spec_f1_range(),
    {
        self.f1_range
    }

    pub fn f2_range(&self) -> (r: Option<Range>)
        ensures
            r == self.spec_f2_range(),
    {
        self.f2_range
    }

    pub fn original_lines(&self) -> (r: &Vec<PatchLine<'a>>)
        ensures
            r@ == self.spec_original_lines(),
    {
        &self.original_lines
    }

    pub fn modified_lines(&self) -> (r: &Vec<PatchLine<'a>>)
        ensures
            r@ == self.spec_modified_lines(),
    {
        &self.modified_lines
    }

    /// The original side holds no line of content, only its range header
    /// (the placeholder that the dialect writes for a pure insertion).
    pub fn is_original_empty(&self) -> (r: bool)
        ensures
            r == is_placeholder(self.spec_original_lines()),
    {
        let mut i: usize = 0;
        while i < self.original_lines.len()
            invariant
                i <= self.original_lines@.len(),
                forall|k: int|
                    0 <= k < i ==> (#[trigger] self.original_lines@[k] is ContextHunkRange
                        || self.original_lines@[k] is ContextHunkSeparator),
            decreases self.original_lines@.len() - i,
        {
            match &self.original_lines[i] {
                PatchLine::ContextHunkRange(_, _) | PatchLine::ContextHunkSeparator(_) => {},
                _ => {
                    return false;
                },
            }
            i = i + 1;
        }
        true
    }

    /// The text of the `index`-th changed line of the modified side.
    pub fn change_by_index(&self, index: usize) -> (r: Option<&'a str>)
        ensures
            index < changes(self.spec_modified_lines()).len() ==> (r matches Some(t) && t@
                == changes(self.spec_modified_lines())[index as int]),
            index >= changes(self.spec_modified_lines()).len() ==> r is None,
            r is Some ==> index < usize::MAX,
    {
        let ghost lines = self.modified_lines@;
        let mut seen: usize = 0;
        let mut i: usize = 0;
        while i < self.modified_lines.len()
            invariant
                lines == self.modified_lines@,
                i <= lines.len(),
                seen == changes(lines.take(i as int)).len(),
                seen <= index,
                seen <= i,
            decreases lines.len() - i,
        {
            proof {
                assert(lines.take(i + 1).drop_last() =~= lines.take(i as int));
            }
            match &self.modified_lines[i] {
                PatchLine::ContextInserted(t, true) => {
                    if seen == index {
                        proof {
                            lemma_changes_prefix(lines, i + 1);
                            assert(lines.take(i + 1).last() == lines[i as int]);
                            assert(changes(lines.take(i + 1)) == changes(lines.take(i as int)).push(
                                t@,
                            ));
                            assert(changes(lines.take(i + 1))[index as int] == changes(
                                lines,
                            )[index as int]);
                        }
                        let text: &'a str = *t;
                        return Some(text);
                    }
                    seen = seen + 1;
                },
                _ => {},
            }
            i = i + 1;
        }
        proof {
            assert(lines.take(lines.len() as int) =~= lines);
        }
        None
    }
}

/// The changes of a prefix are a prefix of the changes.
pub proof fn lemma_changes_prefix(lines: Seq<PatchLine>, n: int)
    requires
        0 <= n <= lines.len(),
    ensures
        changes(lines.take(n)).len() <= changes(lines).len(),
        forall|k: int|
            0 <= k < changes(lines.take(n)).len() ==> #[trigger] changes(lines.take(n))[k]
                == changes(lines)[k],
    decreases lines.len() - n,
{
    if n < lines.len() {
        lemma_changes_prefix(lines, n + 1);
        let t1 = lines.take(n + 1);
        assert(t1.drop_last() =~= lines.take(n));
        assert(t1.last() == lines[n]);
        assert forall|k: int| 0 <= k < changes(lines.take(n)).len() implies #[trigger] changes(
            lines.take(n),
        )[k] == changes(lines)[k] by {
            assert(changes(lines.take(n))[k] == changes(t1)[k]);
        }
    } else {
        assert(lines.take(n) =~= lines);
    }
}

} // verus!
