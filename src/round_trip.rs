use vstd::prelude::*;

use crate::apply_model::{
    apply_result, copy_line, copy_lines, copy_until, first_greater, hunk_step, insert_by_key,
    key_pairs, line_step, run_hunks, run_lines, sort_key, sort_pairs, sorted_hunks, start_state,
    ApplyState, Mode,
};
use crate::apply_model::{
    advance, count_no_newline, emit, lemma_unmarked_output_ends_with_newline, span, unmarked,
};
use crate::hunk::Hunk;
use crate::patch_file::FileKind;
use crate::patch_format::PatchFormat;
use crate::context_hunk_data::{changes, ContextHunkData};
use crate::patch_line::{NormalRangeData, NormalRangeKind, PatchLine};
use crate::range::Range;
use crate::normal_hunk_data::NormalHunkData;
use crate::unified_hunk_data::UnifiedHunkData;

verus! {

/// A line that a unified hunk holds: a header, a deleted, unchanged or
/// inserted line, or the no-newline marker.
pub open spec fn is_unified_line(line: PatchLine) -> bool {
    line is UnifiedHunkHeader || line is UnifiedDeleted || line is UnifiedUnchanged
        || line is UnifiedInserted || line is NoNewLine
}

/// The lines of the original side from position `j` on: deleted and unchanged.
pub open spec fn old_side(lines: Seq<PatchLine>, j: int) -> Seq<Seq<char>>
    decreases lines.len() - j,
{
    if j < 0 || j >= lines.len() {
        Seq::empty()
    } else {
        match lines[j] {
            PatchLine::UnifiedDeleted(t) => seq![t@] + old_side(lines, j + 1),
            PatchLine::UnifiedUnchanged(t) => seq![t@] + old_side(lines, j + 1),
            _ => old_side(lines, j + 1),
        }
    }
}

/// The lines of the modified side from position `j` on: unchanged and inserted.
pub open spec fn new_side(lines: Seq<PatchLine>, j: int) -> Seq<Seq<char>>
    decreases lines.len() - j,
{
    if j < 0 || j >= lines.len() {
        Seq::empty()
    } else {
        match lines[j] {
            PatchLine::UnifiedUnchanged(t) => seq![t@] + new_side(lines, j + 1),
            PatchLine::UnifiedInserted(t) => seq![t@] + new_side(lines, j + 1),
            _ => new_side(lines, j + 1),
        }
    }
}

pub open spec fn unified_data<'a>(h: Hunk<'a>) -> UnifiedHunkData<'a> {
    match h {
        Hunk::Unified(d) => d,
        _ => arbitrary(),
    }
}

pub open spec fn normal_data<'a>(h: Hunk<'a>) -> NormalHunkData<'a> {
    match h {
        Hunk::Normal(d) => d,
        _ => arbitrary(),
    }
}

/// The texts of the deleted lines of a normal hunk from position `j` on.
pub open spec fn deleted_texts(lines: Seq<PatchLine>, j: int) -> Seq<Seq<char>>
    decreases lines.len() - j,
{
    if j < 0 || j >= lines.len() {
        Seq::empty()
    } else {
        match lines[j] {
            PatchLine::NormalLineDelete(t) => seq![t@] + deleted_texts(lines, j + 1),
            _ => deleted_texts(lines, j + 1),
        }
    }
}

/// The texts of the inserted lines of a normal hunk from position `j` on.
pub open spec fn inserted_texts(lines: Seq<PatchLine>, j: int) -> Seq<Seq<char>>
    decreases lines.len() - j,
{
    if j < 0 || j >= lines.len() {
        Seq::empty()
    } else {
        match lines[j] {
            PatchLine::NormalLineInsert(t) => seq![t@] + inserted_texts(lines, j + 1),
            _ => inserted_texts(lines, j + 1),
        }
    }
}

/// The original side of a hunk: what it replaces.
pub open spec fn old_of(h: Hunk) -> Seq<Seq<char>> {
    match h {
        Hunk::Unified(d) => old_side(d.spec_lines(), 0),
        Hunk::Normal(d) => deleted_texts(d.spec_lines(), 1),
        Hunk::Context(d) => context_old(d.spec_effective_lines(), 0),
        _ => Seq::empty(),
    }
}

/// The modified side of a hunk: what it puts in place.
pub open spec fn new_of(h: Hunk) -> Seq<Seq<char>> {
    match h {
        Hunk::Unified(d) => new_side(d.spec_lines(), 0),
        Hunk::Normal(d) => inserted_texts(d.spec_lines(), 1),
        _ => Seq::empty(),
    }
}

/// The modified side of hunk `k`; a context hunk's changed lines are taken
/// from its own modified side, in order.
pub open spec fn new_at(hs: Seq<Hunk>, k: int) -> Seq<Seq<char>> {
    match hs[k] {
        Hunk::Context(d) => context_new(
            d.spec_effective_lines(),
            changes(d.spec_modified_lines()),
            0,
            0,
        ),
        _ => new_of(hs[k]),
    }
}

/// A line of a context hunk other than a changed inserted line.
pub open spec fn is_context_line(line: PatchLine) -> bool {
    match line {
        PatchLine::ContextInserted(_, is_change) => !is_change,
        PatchLine::ContextDeleted(_, _) => true,
        PatchLine::ContextUnchanged(_) => true,
        PatchLine::ContextHunkRange(_, _) => true,
        PatchLine::ContextHunkSeparator(_) => true,
        PatchLine::NoNewLine(_) => true,
        _ => false,
    }
}

/// The original side of context lines from `j` on: deleted and unchanged.
pub open spec fn context_old(lines: Seq<PatchLine>, j: int) -> Seq<Seq<char>>
    decreases lines.len() - j,
{
    if j < 0 || j >= lines.len() {
        Seq::empty()
    } else {
        match lines[j] {
            PatchLine::ContextDeleted(t, _) => seq![t@] + context_old(lines, j + 1),
            PatchLine::ContextUnchanged(t) => seq![t@] + context_old(lines, j + 1),
            _ => context_old(lines, j + 1),
        }
    }
}

/// The deleted lines marked as changes from `j` on.
pub open spec fn change_count(lines: Seq<PatchLine>, j: int) -> int
    decreases lines.len() - j,
{
    if j < 0 || j >= lines.len() {
        0
    } else {
        match lines[j] {
            PatchLine::ContextDeleted(_, true) => 1 + change_count(lines, j + 1),
            _ => change_count(lines, j + 1),
        }
    }
}

/// What forward application writes for context lines from `j` on: inserted
/// and unchanged lines, and for each changed deleted line the next of `cs`
/// from position `ci`.
pub open spec fn context_new(lines: Seq<PatchLine>, cs: Seq<Seq<char>>, ci: int, j: int) -> Seq<Seq<char>>
    decreases lines.len() - j,
{
    if j < 0 || j >= lines.len() {
        Seq::empty()
    } else {
        match lines[j] {
            PatchLine::ContextInserted(t, _) => seq![t@] + context_new(lines, cs, ci, j + 1),
            PatchLine::ContextUnchanged(t) => seq![t@] + context_new(lines, cs, ci, j + 1),
            PatchLine::ContextDeleted(_, true) => seq![cs[ci]] + context_new(lines, cs, ci + 1, j + 1),
            _ => context_new(lines, cs, ci, j + 1),
        }
    }
}

/// The first line of the original that a hunk replaces.
pub open spec fn f1_start(h: Hunk) -> int {
    match h {
        Hunk::Unified(d) => d.spec_f1_range().spec_start(),
        Hunk::Normal(d) => d.spec_range_left().spec_start(),
        Hunk::Context(d) => match d.spec_f1_range() {
            Some(r) => r.spec_start(),
            None => 0,
        },
        _ => 0,
    }
}

pub open spec fn f2_range(h: Hunk) -> Range {
    unified_data(h).spec_f2_range()
}

/// Where copying of the original resumes before hunk `k`: after the
/// original side of hunk `k - 1`.
pub open spec fn resume(hs: Seq<Hunk>, k: int) -> int {
    if k <= 0 {
        1
    } else {
        f1_start(hs[k - 1]) + old_of(hs[k - 1]).len()
    }
}

/// How far the modified file has shifted against the original before hunk `k`.
pub open spec fn offset(hs: Seq<Hunk>, k: int) -> int
    decreases k,
{
    if k <= 0 {
        0
    } else {
        offset(hs, k - 1) + new_at(hs, k - 1).len() - old_of(hs[k - 1]).len()
    }
}

/// The modified file from hunk `k` on: the original lines up to the hunk,
/// then its modified side, and so on.
pub open spec fn image_from(a: Seq<Seq<char>>, hs: Seq<Hunk>, k: int) -> Seq<Seq<char>>
    decreases hs.len() - k,
{
    if k < 0 || k >= hs.len() {
        Seq::empty()
    } else {
        a.subrange(resume(hs, k) - 1, f1_start(hs[k]) - 1) + new_at(hs, k) + image_from(a, hs, k + 1)
    }
}

/// Unified hunks that describe a change of `a`: in order, not overlapping,
/// the last one reaching the end of `a`, each one's original side standing
/// in `a` at its first range, each one's second range starting where the
/// modified file has shifted it and counting its modified side.
#[verifier::opaque]
pub open spec fn unified_fits(hs: Seq<Hunk>, a: Seq<Seq<char>>) -> bool {
    &&& hs.len() >= 1
    &&& a.len() < usize::MAX
    &&& forall|k: int| 0 <= k < hs.len() ==> #[trigger] hs[k] is Unified
    &&& forall|k: int, j: int|
        0 <= k < hs.len() && 0 <= j < unified_data(hs[k]).spec_lines().len() ==> is_unified_line(
            #[trigger] unified_data(hs[k]).spec_lines()[j],
        )
    &&& forall|k: int|
        0 <= k < hs.len() ==> {
            &&& resume(hs, k) <= #[trigger] f1_start(hs[k])
            &&& f1_start(hs[k]) + old_of(hs[k]).len() <= a.len() + 1
            &&& a.subrange(f1_start(hs[k]) - 1, f1_start(hs[k]) - 1 + old_of(hs[k]).len())
                == old_of(hs[k])
            &&& f2_range(hs[k]).spec_kind() == PatchFormat::Unified
            &&& f2_range(hs[k]).spec_start() == f1_start(hs[k]) + offset(hs, k)
            &&& f2_range(hs[k]).spec_stored_end() == new_of(hs[k]).len()
            &&& f2_range(hs[k]).spec_end() <= usize::MAX
        }
    &&& resume(hs, hs.len() as int) == a.len() + 1
}

/// What `unified_fits` says of the whole and of hunk `k`.
proof fn lemma_fits_at(hs: Seq<Hunk>, a: Seq<Seq<char>>, k: int)
    requires
        unified_fits(hs, a),
        0 <= k < hs.len(),
    ensures
        hs.len() >= 1,
        a.len() < usize::MAX,
        resume(hs, hs.len() as int) == a.len() + 1,
        hs[k] == Hunk::Unified(unified_data(hs[k])),
        forall|j: int|
            0 <= j < unified_data(hs[k]).spec_lines().len() ==> is_unified_line(
                #[trigger] unified_data(hs[k]).spec_lines()[j],
            ),
        resume(hs, k) <= f1_start(hs[k]),
        f1_start(hs[k]) + old_of(hs[k]).len() <= a.len() + 1,
        a.subrange(f1_start(hs[k]) - 1, f1_start(hs[k]) - 1 + old_of(hs[k]).len()) == old_of(hs[k]),
        f2_range(hs[k]).spec_kind() == PatchFormat::Unified,
        f2_range(hs[k]).spec_start() == f1_start(hs[k]) + offset(hs, k),
        f2_range(hs[k]).spec_stored_end() == new_of(hs[k]).len(),
        f2_range(hs[k]).spec_end() <= usize::MAX,
{
    reveal(unified_fits);
    assert(hs[k] is Unified);
    assert forall|j: int| 0 <= j < unified_data(hs[k]).spec_lines().len() implies is_unified_line(
        #[trigger] unified_data(hs[k]).spec_lines()[j],
    ) by {}
}

proof fn lemma_fits_end(hs: Seq<Hunk>, a: Seq<Seq<char>>)
    requires
        unified_fits(hs, a),
    ensures
        hs.len() >= 1,
        a.len() < usize::MAX,
        resume(hs, hs.len() as int) == a.len() + 1,
{
    reveal(unified_fits);
}

/// Copying up to line `to` writes the source lines from the cursor to `to - 1`.
proof fn lemma_copy(src: Seq<Seq<char>>, st: ApplyState, to: int)
    requires
        1 <= st.line <= to,
        to <= src.len() + 1,
        to <= usize::MAX,
    ensures
        copy_until(src, st, to) is Some,
        copy_until(src, st, to)->0.line == to,
        copy_until(src, st, to)->0.out == st.out + src.subrange(st.line - 1, to - 1),
        copy_until(src, st, to)->0.change_index == st.change_index,
    decreases to - st.line,
{
    if to > st.line {
        assert(copy_line(src, st) is Some);
        let s1 = copy_line(src, st)->0;
        lemma_copy(src, s1, to);
        assert(copy_lines(src, st, (to - st.line) as nat) == copy_lines(
            src,
            s1,
            (to - st.line - 1) as nat,
        ));
        assert(st.out + src.subrange(st.line - 1, to - 1) =~= st.out.push(src[st.line - 1])
            + src.subrange(st.line, to - 1));
    } else {
        assert(st.out + src.subrange(st.line - 1, to - 1) =~= st.out);
    }
}

/// Forward, the lines of a unified hunk write its modified side and move
/// the cursor over its original side.
proof fn lemma_forward_lines(
    src: Seq<Seq<char>>,
    st: ApplyState,
    h: Hunk,
    lines: Seq<PatchLine>,
    j: int,
)
    requires
        0 <= j <= lines.len(),
        forall|i: int| 0 <= i < lines.len() ==> is_unified_line(#[trigger] lines[i]),
        st.line + old_side(lines, j).len() <= usize::MAX,
    ensures
        run_lines(Mode::UnifiedForward, src, st, h, lines, j) is Some,
        run_lines(Mode::UnifiedForward, src, st, h, lines, j)->0.line == st.line + old_side(
            lines,
            j,
        ).len(),
        run_lines(Mode::UnifiedForward, src, st, h, lines, j)->0.out == st.out + new_side(lines, j),
    decreases lines.len() - j,
{
    if j < lines.len() {
        assert(is_unified_line(lines[j]));
        let s1 = line_step(Mode::UnifiedForward, src, st, h, lines[j]);
        match lines[j] {
            PatchLine::UnifiedDeleted(t) => {
                lemma_forward_lines(src, s1->0, h, lines, j + 1);
            },
            PatchLine::UnifiedUnchanged(t) => {
                lemma_forward_lines(src, s1->0, h, lines, j + 1);
                assert(st.out.push(t@) + new_side(lines, j + 1) =~= st.out + new_side(lines, j));
            },
            PatchLine::UnifiedInserted(t) => {
                lemma_forward_lines(src, s1->0, h, lines, j + 1);
                assert(st.out.push(t@) + new_side(lines, j + 1) =~= st.out + new_side(lines, j));
            },
            _ => {
                lemma_forward_lines(src, s1->0, h, lines, j + 1);
            },
        }
    } else {
        assert(st.out + new_side(lines, j) =~= st.out);
    }
}

/// In reverse, the lines of a unified hunk write its original side and
/// move the cursor over its modified side.
proof fn lemma_reverse_lines(
    src: Seq<Seq<char>>,
    st: ApplyState,
    h: Hunk,
    lines: Seq<PatchLine>,
    j: int,
)
    requires
        0 <= j <= lines.len(),
        forall|i: int| 0 <= i < lines.len() ==> is_unified_line(#[trigger] lines[i]),
        st.line + new_side(lines, j).len() <= usize::MAX,
    ensures
        run_lines(Mode::UnifiedReverse, src, st, h, lines, j) is Some,
        run_lines(Mode::UnifiedReverse, src, st, h, lines, j)->0.line == st.line + new_side(
            lines,
            j,
        ).len(),
        run_lines(Mode::UnifiedReverse, src, st, h, lines, j)->0.out == st.out + old_side(lines, j),
    decreases lines.len() - j,
{
    if j < lines.len() {
        assert(is_unified_line(lines[j]));
        let s1 = line_step(Mode::UnifiedReverse, src, st, h, lines[j]);
        match lines[j] {
            PatchLine::UnifiedDeleted(t) => {
                lemma_reverse_lines(src, s1->0, h, lines, j + 1);
                assert(st.out.push(t@) + old_side(lines, j + 1) =~= st.out + old_side(lines, j));
            },
            PatchLine::UnifiedUnchanged(t) => {
                lemma_reverse_lines(src, s1->0, h, lines, j + 1);
                assert(st.out.push(t@) + old_side(lines, j + 1) =~= st.out + old_side(lines, j));
            },
            PatchLine::UnifiedInserted(t) => {
                lemma_reverse_lines(src, s1->0, h, lines, j + 1);
            },
            _ => {
                lemma_reverse_lines(src, s1->0, h, lines, j + 1);
            },
        }
    } else {
        assert(st.out + old_side(lines, j) =~= st.out);
    }
}

proof fn lemma_resume_positive(hs: Seq<Hunk>, k: int)
    requires
        forall|i: int| 0 <= i < hs.len() ==> resume(hs, i) <= #[trigger] f1_start(hs[i]),
        0 <= k <= hs.len(),
    ensures
        resume(hs, k) >= 1,
    decreases k,
{
    if k > 0 {
        lemma_resume_positive(hs, k - 1);
        assert(resume(hs, k - 1) <= f1_start(hs[k - 1]));
    }
}

proof fn lemma_unified_starts(hs: Seq<Hunk>, a: Seq<Seq<char>>)
    requires
        unified_fits(hs, a),
    ensures
        forall|i: int| 0 <= i < hs.len() ==> resume(hs, i) <= #[trigger] f1_start(hs[i]),
{
    assert forall|i: int| 0 <= i < hs.len() implies resume(hs, i) <= #[trigger] f1_start(hs[i]) by {
        lemma_fits_at(hs, a, i);
    }
}

/// Forward, the hunks from `k` on write the modified file from there.
proof fn lemma_forward_hunks(a: Seq<Seq<char>>, hs: Seq<Hunk>, k: int, st: ApplyState)
    requires
        unified_fits(hs, a),
        0 <= k <= hs.len(),
        st.line == resume(hs, k),
    ensures
        run_hunks(Mode::UnifiedForward, a, st, hs, k) is Some,
        run_hunks(Mode::UnifiedForward, a, st, hs, k)->0.out == st.out + image_from(a, hs, k),
        run_hunks(Mode::UnifiedForward, a, st, hs, k)->0.line == a.len() + 1,
    decreases hs.len() - k,
{
    lemma_fits_end(hs, a);
    if k < hs.len() {
        let h = hs[k];
        lemma_fits_at(hs, a, k);
        let d = unified_data(h);
        let lines = d.spec_lines();
        lemma_unified_starts(hs, a);
        lemma_resume_positive(hs, k);
        lemma_copy(a, st, f1_start(h));
        let s1 = ApplyState { change_index: 0, ..copy_until(a, st, f1_start(h))->0 };
        lemma_forward_lines(a, s1, h, lines, 0);
        let s2 = run_lines(Mode::UnifiedForward, a, s1, h, lines, 0)->0;
        assert(hunk_step(Mode::UnifiedForward, a, st, h) == Some(s2));
        lemma_forward_hunks(a, hs, k + 1, s2);
        assert(st.out + image_from(a, hs, k) =~= s1.out + new_of(h) + image_from(a, hs, k + 1));
    } else {
        assert(st.out + image_from(a, hs, k) =~= st.out);
    }
}

/// In reverse, applied to the modified file, the hunks from `k` on write
/// the original file from there.
#[verifier::rlimit(100)]
proof fn lemma_reverse_hunks(
    a: Seq<Seq<char>>,
    hs: Seq<Hunk>,
    b: Seq<Seq<char>>,
    k: int,
    st: ApplyState,
)
    requires
        unified_fits(hs, a),
        b.len() < usize::MAX,
        0 <= k <= hs.len(),
        st.line == resume(hs, k) + offset(hs, k),
        1 <= st.line <= b.len() + 1,
        b.skip(st.line - 1) == image_from(a, hs, k),
    ensures
        run_hunks(Mode::UnifiedReverse, b, st, hs, k) is Some,
        run_hunks(Mode::UnifiedReverse, b, st, hs, k)->0.out == st.out + a.subrange(
            resume(hs, k) - 1,
            a.len() as int,
        ),
    decreases hs.len() - k,
{
    lemma_fits_end(hs, a);
    if k < hs.len() {
        let h = hs[k];
        lemma_fits_at(hs, a, k);
        let d = unified_data(h);
        let lines = d.spec_lines();
        let x = a.subrange(resume(hs, k) - 1, f1_start(h) - 1);
        lemma_unified_starts(hs, a);
        lemma_resume_positive(hs, k);
        let rest = image_from(a, hs, k);
        assert(rest == x + new_of(h) + image_from(a, hs, k + 1));
        let bk = f2_range(h).spec_start();
        assert(bk == st.line + x.len());
        assert(b.skip(st.line - 1).len() == rest.len());
        lemma_copy(b, st, bk);
        let s1 = ApplyState { change_index: 0, ..copy_until(b, st, bk)->0 };
        lemma_split_suffix(b, st.line, x, new_of(h), image_from(a, hs, k + 1));
        lemma_reverse_lines(b, s1, h, lines, 0);
        let s2 = run_lines(Mode::UnifiedReverse, b, s1, h, lines, 0)->0;
        assert(hunk_step(Mode::UnifiedReverse, b, st, h) == Some(s2));
        assert(offset(hs, k + 1) == offset(hs, k) + new_of(h).len() - old_of(h).len());
        assert(b.skip(s2.line - 1) =~= image_from(a, hs, k + 1)) by {
            let n = x.len() + new_of(h).len();
            let bs = b.skip(s2.line - 1);
            assert forall|i: int| 0 <= i < bs.len() implies #[trigger] bs[i]
                == image_from(a, hs, k + 1)[i] by {
                assert(b.skip(s2.line - 1)[i] == b.skip(st.line - 1)[i + n]);
                assert(rest[i + n] == image_from(a, hs, k + 1)[i]);
            }
        }
        lemma_reverse_hunks(a, hs, b, k + 1, s2);
        assert(a.subrange(f1_start(h) - 1, f1_start(h) - 1 + old_of(h).len()) == old_of(h));
        assert(st.out + a.subrange(resume(hs, k) - 1, a.len() as int) =~= s1.out + old_of(h)
            + a.subrange(resume(hs, k + 1) - 1, a.len() as int));
    } else {
        assert(st.out + a.subrange(resume(hs, k) - 1, a.len() as int) =~= st.out);
    }
}

proof fn lemma_first_greater_none(s: Seq<(int, int)>, key: int, j: int)
    requires
        0 <= j <= s.len(),
        forall|i: int| j <= i < s.len() ==> s[i].0 <= key,
    ensures
        first_greater(s, key, j) == s.len(),
    decreases s.len() - j,
{
    if j < s.len() {
        lemma_first_greater_none(s, key, j + 1);
    }
}

/// Pairs already ordered by key are left as they are.
proof fn lemma_sorted_pairs_kept(s: Seq<(int, int)>)
    requires
        forall|i: int, j: int| 0 <= i <= j < s.len() ==> #[trigger] s[i].0 <= #[trigger] s[j].0,
    ensures
        sort_pairs(s) == s,
    decreases s.len(),
{
    if s.len() > 0 {
        let t = s.drop_last();
        assert forall|i: int, j: int| 0 <= i <= j < t.len() implies #[trigger] t[i].0
            <= #[trigger] t[j].0 by {
            assert(t[i] == s[i] && t[j] == s[j]);
        }
        lemma_sorted_pairs_kept(t);
        assert forall|i: int| 0 <= i < t.len() implies t[i].0 <= s.last().0 by {
            assert(t[i] == s[i]);
            assert(s[i].0 <= s[s.len() - 1].0);
        }
        lemma_first_greater_none(t, s.last().0, 0);
        assert(insert_by_key(t, s.last()) =~= s);
    }
}

/// Keys that do not decrease from one hunk to the next leave the order alone.
proof fn lemma_order_kept(mode: Mode, hs: Seq<Hunk>)
    requires
        forall|i: int| 0 <= i < hs.len() ==> #[trigger] sort_key(mode, hs[i]) is Some,
        forall|i: int|
            0 <= i < hs.len() - 1 ==> (#[trigger] sort_key(mode, hs[i]))->0 <= sort_key(mode, hs[i + 1])->0,
    ensures
        sorted_hunks(mode, hs) == hs,
{
    let kp = key_pairs(mode, hs);
    assert forall|i: int, j: int| 0 <= i <= j < kp.len() implies #[trigger] kp[i].0
        <= #[trigger] kp[j].0 by {
        lemma_keys_chain(mode, hs, i, j);
    }
    lemma_sorted_pairs_kept(kp);
    assert(sorted_hunks(mode, hs) =~= hs);
}

proof fn lemma_keys_chain(mode: Mode, hs: Seq<Hunk>, i: int, j: int)
    requires
        0 <= i <= j < hs.len(),
        forall|k: int| 0 <= k < hs.len() ==> #[trigger] sort_key(mode, hs[k]) is Some,
        forall|k: int|
            0 <= k < hs.len() - 1 ==> (#[trigger] sort_key(mode, hs[k]))->0 <= sort_key(mode, hs[k + 1])->0,
    ensures
        sort_key(mode, hs[i])->0 <= sort_key(mode, hs[j])->0,
    decreases j - i,
{
    if i < j {
        lemma_keys_chain(mode, hs, i, j - 1);
        assert(sort_key(mode, hs[j - 1])->0 <= sort_key(mode, hs[j])->0);
    }
}

/// Unified hunks that describe a change of the lines `a`, applied forward
/// to `a`, give the lines of the modified file; applied in reverse to
/// those, they give back `a`, line for line. Without no-newline markers
/// both outputs end with a newline, so a file that ends with one comes
/// back byte for byte.
pub proof fn lemma_unified_round_trip(
    hs: Seq<Hunk>,
    a: Seq<Seq<char>>,
    kind1: FileKind,
    ends1: bool,
    kind2: FileKind,
    ends2: bool,
)
    requires
        unified_fits(hs, a),
        image_from(a, hs, 0).len() < usize::MAX,
    ensures
        match apply_result(Mode::UnifiedForward, hs, a, kind1, ends1) {
            Some((b, newline1)) => b == image_from(a, hs, 0) && (unmarked(hs) ==> newline1)
                && match apply_result(Mode::UnifiedReverse, hs, b, kind2, ends2) {
                Some((back, newline2)) => back == a && (unmarked(hs) ==> newline2),
                None => false,
            },
            None => false,
        },
{
    let b = image_from(a, hs, 0);
    lemma_fits_end(hs, a);
    assert forall|i: int| 0 <= i < hs.len() implies #[trigger] sort_key(Mode::UnifiedForward, hs[i])
        is Some by {
        lemma_fits_at(hs, a, i);
    }
    assert forall|i: int| 0 <= i < hs.len() - 1 implies (#[trigger] sort_key(
        Mode::UnifiedForward,
        hs[i],
    ))->0 <= sort_key(Mode::UnifiedForward, hs[i + 1])->0 by {
        lemma_fits_at(hs, a, i);
        lemma_fits_at(hs, a, i + 1);
    }
    lemma_order_kept(Mode::UnifiedForward, hs);
    assert forall|i: int| 0 <= i < hs.len() implies #[trigger] sort_key(Mode::UnifiedReverse, hs[i])
        is Some by {
        lemma_fits_at(hs, a, i);
    }
    assert forall|i: int| 0 <= i < hs.len() - 1 implies (#[trigger] sort_key(
        Mode::UnifiedReverse,
        hs[i],
    ))->0 <= sort_key(Mode::UnifiedReverse, hs[i + 1])->0 by {
        lemma_fits_at(hs, a, i);
        lemma_fits_at(hs, a, i + 1);
        assert(offset(hs, i + 1) == offset(hs, i) + new_of(hs[i]).len() - old_of(hs[i]).len());
    }
    lemma_order_kept(Mode::UnifiedReverse, hs);
    lemma_forward_hunks(a, hs, 0, start_state());
    assert(start_state().out + b =~= b);
    assert(b.skip(0) =~= b);
    lemma_reverse_hunks(a, hs, b, 0, start_state());
    assert(start_state().out + a.subrange(0, a.len() as int) =~= a);
    if unmarked(hs) {
        lemma_unmarked_output_ends_with_newline(Mode::UnifiedForward, hs, a, kind1, ends1);
        lemma_unmarked_output_ends_with_newline(Mode::UnifiedReverse, hs, b, kind2, ends2);
    }
}


/// A line that follows the header of a normal hunk.
pub open spec fn is_normal_body_line(line: PatchLine) -> bool {
    line is NormalLineDelete || line is NormalLineInsert || line is NormalChangeSeparator
        || line is NoNewLine
}

/// The header data of a normal hunk, its first line.
pub open spec fn normal_header<'a>(h: Hunk<'a>) -> NormalRangeData<'a> {
    match normal_data(h).spec_lines()[0] {
        PatchLine::NormalRange(d) => d,
        _ => arbitrary(),
    }
}

/// Normal hunk `k` describes a change or a deletion in `a`: its header comes
/// first and repeats its ranges, its left range spans its deleted lines,
/// which stand in `a` there, and its right range starts where the modified
/// file has shifted it (before it, for a deletion) and spans its inserted
/// lines.
pub open spec fn normal_hunk_fits(hs: Seq<Hunk>, a: Seq<Seq<char>>, k: int) -> bool {
    let h = hs[k];
    let d = normal_data(h);
    let ls = d.spec_lines();
    let hd = normal_header(h);
    &&& h is Normal
    &&& ls.len() >= 1
    &&& ls[0] is NormalRange
    &&& hd.range_left == d.spec_range_left()
    &&& hd.range_right == d.spec_range_right()
    &&& hd.kind != NormalRangeKind::Insert
    &&& forall|j: int| 1 <= j < ls.len() ==> is_normal_body_line(#[trigger] ls[j])
    &&& span(d.spec_range_left()) == Some(old_of(h).len() - 1)
    &&& span(d.spec_range_right()) is Some
    &&& resume(hs, k) <= f1_start(h)
    &&& f1_start(h) + old_of(h).len() <= a.len() + 1
    &&& a.subrange(f1_start(h) - 1, f1_start(h) - 1 + old_of(h).len()) == old_of(h)
    &&& hd.kind == NormalRangeKind::Change ==> {
        &&& d.spec_range_right().spec_start() == f1_start(h) + offset(hs, k)
        &&& new_of(h).len() >= 1
        &&& span(d.spec_range_right()) == Some(new_of(h).len() - 1)
    }
    &&& hd.kind == NormalRangeKind::Delete ==> {
        &&& d.spec_range_right().spec_start() == f1_start(h) - 1 + offset(hs, k)
        &&& new_of(h).len() == 0
    }
}

/// Normal hunks, changes and deletions only, that describe a change of `a`:
/// in order, each one fitting, the last one reaching the end of `a`.
#[verifier::opaque]
pub open spec fn normal_fits(hs: Seq<Hunk>, a: Seq<Seq<char>>) -> bool {
    &&& hs.len() >= 1
    &&& a.len() < usize::MAX
    &&& forall|k: int| 0 <= k < hs.len() ==> #[trigger] normal_hunk_fits(hs, a, k)
    &&& resume(hs, hs.len() as int) == a.len() + 1
}

proof fn lemma_normal_fits_at(hs: Seq<Hunk>, a: Seq<Seq<char>>, k: int)
    requires
        normal_fits(hs, a),
        0 <= k < hs.len(),
    ensures
        normal_hunk_fits(hs, a, k),
        hs[k] == Hunk::Normal(normal_data(hs[k])),
{
    reveal(normal_fits);
    assert(normal_hunk_fits(hs, a, k));
    assert(hs[k] is Normal);
}

proof fn lemma_normal_fits_end(hs: Seq<Hunk>, a: Seq<Seq<char>>)
    requires
        normal_fits(hs, a),
    ensures
        hs.len() >= 1,
        a.len() < usize::MAX,
        resume(hs, hs.len() as int) == a.len() + 1,
        forall|i: int| 0 <= i < hs.len() ==> resume(hs, i) <= #[trigger] f1_start(hs[i]),
{
    reveal(normal_fits);
    assert forall|i: int| 0 <= i < hs.len() implies resume(hs, i) <= #[trigger] f1_start(hs[i]) by {
        assert(normal_hunk_fits(hs, a, i));
    }
}

proof fn lemma_normal_forward_body(src: Seq<Seq<char>>, st: ApplyState, h: Hunk, ls: Seq<PatchLine>, j: int)
    requires
        1 <= j <= ls.len(),
        forall|i: int| 1 <= i < ls.len() ==> is_normal_body_line(#[trigger] ls[i]),
    ensures
        run_lines(Mode::NormalForward, src, st, h, ls, j) is Some,
        run_lines(Mode::NormalForward, src, st, h, ls, j)->0.line == st.line,
        run_lines(Mode::NormalForward, src, st, h, ls, j)->0.out == st.out + inserted_texts(ls, j),
    decreases ls.len() - j,
{
    if j < ls.len() {
        assert(is_normal_body_line(ls[j]));
        let s1 = line_step(Mode::NormalForward, src, st, h, ls[j])->0;
        lemma_normal_forward_body(src, s1, h, ls, j + 1);
        match ls[j] {
            PatchLine::NormalLineInsert(t) => {
                assert(st.out.push(t@) + inserted_texts(ls, j + 1) =~= st.out + inserted_texts(ls, j));
            },
            _ => {},
        }
    } else {
        assert(st.out + inserted_texts(ls, j) =~= st.out);
    }
}

proof fn lemma_normal_reverse_body(src: Seq<Seq<char>>, st: ApplyState, h: Hunk, ls: Seq<PatchLine>, j: int)
    requires
        1 <= j <= ls.len(),
        forall|i: int| 1 <= i < ls.len() ==> is_normal_body_line(#[trigger] ls[i]),
    ensures
        run_lines(Mode::NormalReverse, src, st, h, ls, j) is Some,
        run_lines(Mode::NormalReverse, src, st, h, ls, j)->0.line == st.line,
        run_lines(Mode::NormalReverse, src, st, h, ls, j)->0.out == st.out + deleted_texts(ls, j),
    decreases ls.len() - j,
{
    if j < ls.len() {
        assert(is_normal_body_line(ls[j]));
        let s1 = line_step(Mode::NormalReverse, src, st, h, ls[j])->0;
        lemma_normal_reverse_body(src, s1, h, ls, j + 1);
        match ls[j] {
            PatchLine::NormalLineDelete(t) => {
                assert(st.out.push(t@) + deleted_texts(ls, j + 1) =~= st.out + deleted_texts(ls, j));
            },
            _ => {},
        }
    } else {
        assert(st.out + deleted_texts(ls, j) =~= st.out);
    }
}

/// Forward, normal hunks from `k` on write the modified file from there.
#[verifier::rlimit(80)]
proof fn lemma_normal_forward_hunks(a: Seq<Seq<char>>, hs: Seq<Hunk>, k: int, st: ApplyState)
    requires
        normal_fits(hs, a),
        0 <= k <= hs.len(),
        st.line == resume(hs, k),
    ensures
        run_hunks(Mode::NormalForward, a, st, hs, k) is Some,
        run_hunks(Mode::NormalForward, a, st, hs, k)->0.out == st.out + image_from(a, hs, k),
    decreases hs.len() - k,
{
    lemma_normal_fits_end(hs, a);
    if k < hs.len() {
        let h = hs[k];
        lemma_normal_fits_at(hs, a, k);
        let d = normal_data(h);
        let ls = d.spec_lines();
        lemma_resume_positive(hs, k);
        lemma_copy(a, st, f1_start(h));
        let s1 = ApplyState { change_index: 0, ..copy_until(a, st, f1_start(h))->0 };
        let s0 = advance(s1, old_of(h).len() as int)->0;
        assert(line_step(Mode::NormalForward, a, s1, h, ls[0]) == Some(s0));
        lemma_normal_forward_body(a, s0, h, ls, 1);
        let s2 = run_lines(Mode::NormalForward, a, s0, h, ls, 1)->0;
        assert(run_lines(Mode::NormalForward, a, s1, h, ls, 0) == Some(s2));
        assert(hunk_step(Mode::NormalForward, a, st, h) == Some(s2));
        lemma_normal_forward_hunks(a, hs, k + 1, s2);
        assert(st.out + image_from(a, hs, k) =~= s1.out + new_of(h) + image_from(a, hs, k + 1));
    } else {
        assert(st.out + image_from(a, hs, k) =~= st.out);
    }
}

/// In reverse, applied to the modified file, normal hunks from `k` on
/// write the original file from there.
#[verifier::rlimit(100)]
proof fn lemma_normal_reverse_hunks(
    a: Seq<Seq<char>>,
    hs: Seq<Hunk>,
    b: Seq<Seq<char>>,
    k: int,
    st: ApplyState,
)
    requires
        normal_fits(hs, a),
        b.len() < usize::MAX,
        0 <= k <= hs.len(),
        st.line == resume(hs, k) + offset(hs, k),
        1 <= st.line <= b.len() + 1,
        b.skip(st.line - 1) == image_from(a, hs, k),
    ensures
        run_hunks(Mode::NormalReverse, b, st, hs, k) is Some,
        run_hunks(Mode::NormalReverse, b, st, hs, k)->0.out == st.out + a.subrange(
            resume(hs, k) - 1,
            a.len() as int,
        ),
    decreases hs.len() - k,
{
    lemma_normal_fits_end(hs, a);
    if k < hs.len() {
        let h = hs[k];
        lemma_normal_fits_at(hs, a, k);
        let d = normal_data(h);
        let ls = d.spec_lines();
        let hd = normal_header(h);
        let x = a.subrange(resume(hs, k) - 1, f1_start(h) - 1);
        lemma_resume_positive(hs, k);
        let rest = image_from(a, hs, k);
        assert(rest == x + new_of(h) + image_from(a, hs, k + 1));
        assert(b.skip(st.line - 1).len() == rest.len());
        let q = st.line;
        let after = q + x.len();
        assert(b.subrange(q - 1, after - 1) =~= x) by {
            let bx = b.subrange(q - 1, after - 1);
            assert forall|i: int| 0 <= i < x.len() implies #[trigger] bx[i] == x[i] by {
                assert(b.skip(q - 1)[i] == rest[i]);
                assert(rest[i] == x[i]);
            }
        }
        let rs = d.spec_range_right().spec_start();
        let s1 = if hd.kind == NormalRangeKind::Change {
            lemma_copy(b, st, rs);
            let c = ApplyState { change_index: 0, ..copy_until(b, st, rs)->0 };
            let c2 = advance(c, new_of(h).len() as int)->0;
            assert(line_step(Mode::NormalReverse, b, c, h, ls[0]) == Some(c2));
            assert(run_lines(Mode::NormalReverse, b, c, h, ls, 0) == run_lines(Mode::NormalReverse, b, c2, h, ls, 1));
            assert(hunk_step(Mode::NormalReverse, b, st, h) == run_lines(Mode::NormalReverse, b, c2, h, ls, 1));
            c2
        } else if x.len() > 0 {
            lemma_copy(b, st, rs);
            let c = ApplyState { change_index: 0, ..copy_until(b, st, rs)->0 };
            let c2 = copy_line(b, c)->0;
            assert(c.out + seq![b[rs - 1]] =~= st.out + x) by {
                assert(b.subrange(q - 1, rs - 1).push(b[rs - 1]) =~= b.subrange(q - 1, after - 1));
            }
            assert(line_step(Mode::NormalReverse, b, c, h, ls[0]) == Some(c2));
            assert(run_lines(Mode::NormalReverse, b, c, h, ls, 0) == run_lines(Mode::NormalReverse, b, c2, h, ls, 1));
            assert(hunk_step(Mode::NormalReverse, b, st, h) == run_lines(Mode::NormalReverse, b, c2, h, ls, 1));
            c2
        } else {
            let c = ApplyState { change_index: 0, ..st };
            assert(copy_until(b, st, rs) == Some(st));
            assert(line_step(Mode::NormalReverse, b, c, h, ls[0]) == Some(c));
            assert(run_lines(Mode::NormalReverse, b, c, h, ls, 0) == run_lines(Mode::NormalReverse, b, c, h, ls, 1));
            assert(hunk_step(Mode::NormalReverse, b, st, h) == run_lines(Mode::NormalReverse, b, c, h, ls, 1));
            c
        };
        assert(s1.out =~= st.out + x);
        assert(s1.line == after + new_of(h).len());
        lemma_normal_reverse_body(b, s1, h, ls, 1);
        let s2 = run_lines(Mode::NormalReverse, b, s1, h, ls, 1)->0;
        assert(hunk_step(Mode::NormalReverse, b, st, h) == Some(s2));
        assert(offset(hs, k + 1) == offset(hs, k) + new_of(h).len() - old_of(h).len());
        assert(b.skip(s2.line - 1) =~= image_from(a, hs, k + 1)) by {
            let n = x.len() + new_of(h).len();
            let bs = b.skip(s2.line - 1);
            assert forall|i: int| 0 <= i < bs.len() implies #[trigger] bs[i]
                == image_from(a, hs, k + 1)[i] by {
                assert(bs[i] == b.skip(q - 1)[i + n]);
                assert(rest[i + n] == image_from(a, hs, k + 1)[i]);
            }
        }
        lemma_normal_reverse_hunks(a, hs, b, k + 1, s2);
        assert(st.out + a.subrange(resume(hs, k) - 1, a.len() as int) =~= s1.out + old_of(h)
            + a.subrange(resume(hs, k + 1) - 1, a.len() as int));
    } else {
        assert(st.out + a.subrange(resume(hs, k) - 1, a.len() as int) =~= st.out);
    }
}


/// Normal hunks, changes and deletions, that describe a change of the lines
/// `a`, applied forward to `a`, give the lines of the modified file;
/// applied in reverse to those, they give back `a`, line for line.
/// Without no-newline markers both outputs end with a newline.
pub proof fn lemma_normal_round_trip(
    hs: Seq<Hunk>,
    a: Seq<Seq<char>>,
    kind1: FileKind,
    ends1: bool,
    kind2: FileKind,
    ends2: bool,
)
    requires
        normal_fits(hs, a),
        image_from(a, hs, 0).len() < usize::MAX,
    ensures
        match apply_result(Mode::NormalForward, hs, a, kind1, ends1) {
            Some((b, newline1)) => b == image_from(a, hs, 0) && (unmarked(hs) ==> newline1)
                && match apply_result(Mode::NormalReverse, hs, b, kind2, ends2) {
                Some((back, newline2)) => back == a && (unmarked(hs) ==> newline2),
                None => false,
            },
            None => false,
        },
{
    let b = image_from(a, hs, 0);
    lemma_normal_fits_end(hs, a);
    assert forall|i: int| 0 <= i < hs.len() implies #[trigger] sort_key(Mode::NormalForward, hs[i])
        is Some by {
        lemma_normal_fits_at(hs, a, i);
    }
    assert forall|i: int| 0 <= i < hs.len() - 1 implies (#[trigger] sort_key(
        Mode::NormalForward,
        hs[i],
    ))->0 <= sort_key(Mode::NormalForward, hs[i + 1])->0 by {
        lemma_normal_fits_at(hs, a, i);
        lemma_normal_fits_at(hs, a, i + 1);
        assert(offset(hs, i + 1) == offset(hs, i) + new_of(hs[i]).len() - old_of(hs[i]).len());
    }
    lemma_order_kept(Mode::NormalForward, hs);
    assert forall|i: int| 0 <= i < hs.len() implies #[trigger] sort_key(Mode::NormalReverse, hs[i])
        is Some by {
        lemma_normal_fits_at(hs, a, i);
    }
    assert forall|i: int| 0 <= i < hs.len() - 1 implies (#[trigger] sort_key(
        Mode::NormalReverse,
        hs[i],
    ))->0 <= sort_key(Mode::NormalReverse, hs[i + 1])->0 by {
        lemma_normal_fits_at(hs, a, i);
        lemma_normal_fits_at(hs, a, i + 1);
    }
    lemma_order_kept(Mode::NormalReverse, hs);
    lemma_normal_forward_hunks(a, hs, 0, start_state());
    assert(start_state().out + b =~= b);
    assert(b.skip(0) =~= b);
    lemma_normal_reverse_hunks(a, hs, b, 0, start_state());
    assert(start_state().out + a.subrange(0, a.len() as int) =~= a);
    if unmarked(hs) {
        lemma_unmarked_output_ends_with_newline(Mode::NormalForward, hs, a, kind1, ends1);
        lemma_unmarked_output_ends_with_newline(Mode::NormalReverse, hs, b, kind2, ends2);
    }
}


pub open spec fn context_data<'a>(h: Hunk<'a>) -> ContextHunkData<'a> {
    match h {
        Hunk::Context(d) => d,
        _ => arbitrary(),
    }
}

/// Context hunk `k` describes a change of `a`: both ranges are there, the
/// lines it walks hold no changed inserted line, the changed lines it uses
/// exist on its modified side, its original side stands in `a` at its first
/// range, and its second range starts where the modified file has shifted it.
pub open spec fn context_hunk_fits(hs: Seq<Hunk>, a: Seq<Seq<char>>, k: int) -> bool {
    let h = hs[k];
    let d = context_data(h);
    let e = d.spec_effective_lines();
    &&& h is Context
    &&& d.spec_f1_range() is Some
    &&& d.spec_f2_range() is Some
    &&& forall|j: int| 0 <= j < e.len() ==> is_context_line(#[trigger] e[j])
    &&& change_count(e, 0) <= changes(d.spec_modified_lines()).len()
    &&& resume(hs, k) <= f1_start(h)
    &&& f1_start(h) + old_of(h).len() <= a.len() + 1
    &&& a.subrange(f1_start(h) - 1, f1_start(h) - 1 + old_of(h).len()) == old_of(h)
    &&& d.spec_f2_range()->0.spec_start() == f1_start(h) + offset(hs, k)
}

/// Context hunks that describe a change of `a`: in order, each one fitting,
/// the last one reaching the end of `a`.
#[verifier::opaque]
pub open spec fn context_fits(hs: Seq<Hunk>, a: Seq<Seq<char>>) -> bool {
    &&& hs.len() >= 1
    &&& a.len() < usize::MAX
    &&& forall|k: int| 0 <= k < hs.len() ==> #[trigger] context_hunk_fits(hs, a, k)
    &&& resume(hs, hs.len() as int) == a.len() + 1
}

proof fn lemma_context_fits_at(hs: Seq<Hunk>, a: Seq<Seq<char>>, k: int)
    requires
        context_fits(hs, a),
        0 <= k < hs.len(),
    ensures
        context_hunk_fits(hs, a, k),
        hs[k] == Hunk::Context(context_data(hs[k])),
{
    reveal(context_fits);
    assert(context_hunk_fits(hs, a, k));
    assert(hs[k] is Context);
}

proof fn lemma_context_fits_end(hs: Seq<Hunk>, a: Seq<Seq<char>>)
    requires
        context_fits(hs, a),
    ensures
        hs.len() >= 1,
        a.len() < usize::MAX,
        resume(hs, hs.len() as int) == a.len() + 1,
        forall|i: int| 0 <= i < hs.len() ==> resume(hs, i) <= #[trigger] f1_start(hs[i]),
{
    reveal(context_fits);
    assert forall|i: int| 0 <= i < hs.len() implies resume(hs, i) <= #[trigger] f1_start(hs[i]) by {
        assert(context_hunk_fits(hs, a, i));
    }
}

/// Forward, context lines write their modified side and move the cursor
/// over their original side.
proof fn lemma_context_forward_lines(
    src: Seq<Seq<char>>,
    st: ApplyState,
    d: ContextHunkData,
    lines: Seq<PatchLine>,
    j: int,
)
    requires
        0 <= j <= lines.len(),
        forall|i: int| 0 <= i < lines.len() ==> is_context_line(#[trigger] lines[i]),
        0 <= st.change_index,
        st.change_index + change_count(lines, j) <= changes(d.spec_modified_lines()).len(),
        st.line + context_old(lines, j).len() <= usize::MAX,
    ensures
        run_lines(Mode::ContextForward, src, st, Hunk::Context(d), lines, j) is Some,
        run_lines(Mode::ContextForward, src, st, Hunk::Context(d), lines, j)->0.line == st.line
            + context_old(lines, j).len(),
        run_lines(Mode::ContextForward, src, st, Hunk::Context(d), lines, j)->0.out == st.out
            + context_new(lines, changes(d.spec_modified_lines()), st.change_index, j),
        run_lines(Mode::ContextForward, src, st, Hunk::Context(d), lines, j)->0.change_index
            == st.change_index + change_count(lines, j),
    decreases lines.len() - j,
{
    let h = Hunk::Context(d);
    let cs = changes(d.spec_modified_lines());
    if j < lines.len() {
        assert(is_context_line(lines[j]));
        let ci = st.change_index;
        match lines[j] {
            PatchLine::ContextInserted(t, is_change) => {
                assert(!is_change);
                let s1 = emit(st, t@);
                assert(line_step(Mode::ContextForward, src, st, h, lines[j]) == Some(s1));
                lemma_context_forward_lines(src, s1, d, lines, j + 1);
                assert(st.out.push(t@) + context_new(lines, cs, ci, j + 1) =~= st.out
                    + context_new(lines, cs, ci, j));
            },
            PatchLine::ContextUnchanged(t) => {
                let s1 = advance(emit(st, t@), 1)->0;
                assert(line_step(Mode::ContextForward, src, st, h, lines[j]) == Some(s1));
                lemma_context_forward_lines(src, s1, d, lines, j + 1);
                assert(st.out.push(t@) + context_new(lines, cs, ci, j + 1) =~= st.out
                    + context_new(lines, cs, ci, j));
            },
            PatchLine::ContextDeleted(_, is_change) => {
                if is_change {
                    assert(change_count(lines, j) == 1 + change_count(lines, j + 1));
                    lemma_counts_nonnegative(lines, j + 1);
                    assert(0 <= ci < cs.len());
                    let s1 = advance(
                        ApplyState { change_index: ci + 1, ..emit(st, cs[ci]) },
                        1,
                    )->0;
                    assert(line_step(Mode::ContextForward, src, st, h, lines[j]) == Some(s1));
                    lemma_context_forward_lines(src, s1, d, lines, j + 1);
                    assert(st.out.push(cs[ci]) + context_new(lines, cs, ci + 1, j + 1) =~= st.out
                        + context_new(lines, cs, ci, j));
                } else {
                    let s1 = advance(st, 1)->0;
                    assert(line_step(Mode::ContextForward, src, st, h, lines[j]) == Some(s1));
                    lemma_context_forward_lines(src, s1, d, lines, j + 1);
                }
            },
            PatchLine::NoNewLine(_) => {
                let s1 = count_no_newline(st);
                assert(line_step(Mode::ContextForward, src, st, h, lines[j]) == Some(s1));
                lemma_context_forward_lines(src, s1, d, lines, j + 1);
            },
            _ => {
                assert(line_step(Mode::ContextForward, src, st, h, lines[j]) == Some(st));
                lemma_context_forward_lines(src, st, d, lines, j + 1);
            },
        }
    } else {
        assert(st.out + context_new(lines, cs, st.change_index, j) =~= st.out);
    }
}

/// The modified side has as many lines as reverse application moves over.
proof fn lemma_context_new_len(lines: Seq<PatchLine>, cs: Seq<Seq<char>>, ci: int, j: int)
    requires
        0 <= j <= lines.len(),
    ensures
        context_new(lines, cs, ci, j).len() == reverse_span(lines, j),
    decreases lines.len() - j,
{
    if j < lines.len() {
        match lines[j] {
            PatchLine::ContextDeleted(_, true) => lemma_context_new_len(lines, cs, ci + 1, j + 1),
            _ => lemma_context_new_len(lines, cs, ci, j + 1),
        }
    }
}

/// The lines that reverse application moves the cursor over, from `j` on.
pub open spec fn reverse_span(lines: Seq<PatchLine>, j: int) -> int
    decreases lines.len() - j,
{
    if j < 0 || j >= lines.len() {
        0
    } else {
        match lines[j] {
            PatchLine::ContextInserted(_, _) => 1 + reverse_span(lines, j + 1),
            PatchLine::ContextUnchanged(_) => 1 + reverse_span(lines, j + 1),
            PatchLine::ContextDeleted(_, true) => 1 + reverse_span(lines, j + 1),
            _ => reverse_span(lines, j + 1),
        }
    }
}

/// In reverse, context lines write their original side and move the
/// cursor over their modified side.
proof fn lemma_context_reverse_lines(
    src: Seq<Seq<char>>,
    st: ApplyState,
    h: Hunk,
    lines: Seq<PatchLine>,
    j: int,
)
    requires
        0 <= j <= lines.len(),
        forall|i: int| 0 <= i < lines.len() ==> is_context_line(#[trigger] lines[i]),
        st.line + reverse_span(lines, j) <= usize::MAX,
    ensures
        run_lines(Mode::ContextReverse, src, st, h, lines, j) is Some,
        run_lines(Mode::ContextReverse, src, st, h, lines, j)->0.line == st.line + reverse_span(
            lines,
            j,
        ),
        run_lines(Mode::ContextReverse, src, st, h, lines, j)->0.out == st.out + context_old(
            lines,
            j,
        ),
    decreases lines.len() - j,
{
    if j < lines.len() {
        assert(is_context_line(lines[j]));
        lemma_counts_nonnegative(lines, j + 1);
        match lines[j] {
            PatchLine::ContextInserted(_, _) => {
                let s1 = advance(st, 1)->0;
                assert(line_step(Mode::ContextReverse, src, st, h, lines[j]) == Some(s1));
                lemma_context_reverse_lines(src, s1, h, lines, j + 1);
            },
            PatchLine::ContextDeleted(t, is_change) => {
                let s1 = if is_change {
                    advance(emit(st, t@), 1)->0
                } else {
                    emit(st, t@)
                };
                assert(line_step(Mode::ContextReverse, src, st, h, lines[j]) == Some(s1));
                lemma_context_reverse_lines(src, s1, h, lines, j + 1);
                assert(st.out.push(t@) + context_old(lines, j + 1) =~= st.out + context_old(
                    lines,
                    j,
                ));
            },
            PatchLine::ContextUnchanged(t) => {
                let s1 = advance(emit(st, t@), 1)->0;
                assert(line_step(Mode::ContextReverse, src, st, h, lines[j]) == Some(s1));
                lemma_context_reverse_lines(src, s1, h, lines, j + 1);
                assert(st.out.push(t@) + context_old(lines, j + 1) =~= st.out + context_old(
                    lines,
                    j,
                ));
            },
            PatchLine::NoNewLine(_) => {
                let s1 = count_no_newline(st);
                assert(line_step(Mode::ContextReverse, src, st, h, lines[j]) == Some(s1));
                lemma_context_reverse_lines(src, s1, h, lines, j + 1);
            },
            _ => {
                assert(line_step(Mode::ContextReverse, src, st, h, lines[j]) == Some(st));
                lemma_context_reverse_lines(src, st, h, lines, j + 1);
            },
        }
    } else {
        assert(st.out + context_old(lines, j) =~= st.out);
    }
}


proof fn lemma_counts_nonnegative(lines: Seq<PatchLine>, j: int)
    ensures
        change_count(lines, j) >= 0,
        reverse_span(lines, j) >= 0,
    decreases lines.len() - j,
{
    if 0 <= j < lines.len() {
        lemma_counts_nonnegative(lines, j + 1);
    }
}


/// Forward, context hunks from `k` on write the modified file from there.
proof fn lemma_context_forward_hunks(a: Seq<Seq<char>>, hs: Seq<Hunk>, k: int, st: ApplyState)
    requires
        context_fits(hs, a),
        0 <= k <= hs.len(),
        st.line == resume(hs, k),
    ensures
        run_hunks(Mode::ContextForward, a, st, hs, k) is Some,
        run_hunks(Mode::ContextForward, a, st, hs, k)->0.out == st.out + image_from(a, hs, k),
    decreases hs.len() - k,
{
    lemma_context_fits_end(hs, a);
    if k < hs.len() {
        let h = hs[k];
        lemma_context_fits_at(hs, a, k);
        let d = context_data(h);
        let e = d.spec_effective_lines();
        lemma_resume_positive(hs, k);
        lemma_copy(a, st, f1_start(h));
        let s1 = ApplyState { change_index: 0, ..copy_until(a, st, f1_start(h))->0 };
        lemma_counts_nonnegative(e, 0);
        lemma_context_forward_lines(a, s1, d, e, 0);
        let s2 = run_lines(Mode::ContextForward, a, s1, h, e, 0)->0;
        assert(hunk_step(Mode::ContextForward, a, st, h) == Some(s2));
        lemma_context_forward_hunks(a, hs, k + 1, s2);
        assert(st.out + image_from(a, hs, k) =~= s1.out + new_at(hs, k) + image_from(a, hs, k + 1));
    } else {
        assert(st.out + image_from(a, hs, k) =~= st.out);
    }
}

/// In reverse, context hunk `k` writes the original from where copying
/// resumes up to the next hunk, and leaves the cursor on the rest of the
/// modified file.
#[verifier::rlimit(60)]
proof fn lemma_context_reverse_step(
    a: Seq<Seq<char>>,
    hs: Seq<Hunk>,
    b: Seq<Seq<char>>,
    k: int,
    st: ApplyState,
)
    requires
        context_fits(hs, a),
        b.len() < usize::MAX,
        0 <= k < hs.len(),
        st.line == resume(hs, k) + offset(hs, k),
        1 <= st.line <= b.len() + 1,
        b.skip(st.line - 1) == image_from(a, hs, k),
    ensures
        hunk_step(Mode::ContextReverse, b, st, hs[k]) is Some,
        hunk_step(Mode::ContextReverse, b, st, hs[k])->0.line == resume(hs, k + 1) + offset(
            hs,
            k + 1,
        ),
        1 <= hunk_step(Mode::ContextReverse, b, st, hs[k])->0.line <= b.len() + 1,
        b.skip(hunk_step(Mode::ContextReverse, b, st, hs[k])->0.line - 1) == image_from(
            a,
            hs,
            k + 1,
        ),
        hunk_step(Mode::ContextReverse, b, st, hs[k])->0.out == st.out + a.subrange(
            resume(hs, k) - 1,
            resume(hs, k + 1) - 1,
        ),
{
    lemma_context_fits_end(hs, a);
    let h = hs[k];
    lemma_context_fits_at(hs, a, k);
    let d = context_data(h);
    let e = d.spec_effective_lines();
    let x = a.subrange(resume(hs, k) - 1, f1_start(h) - 1);
    lemma_resume_positive(hs, k);
    let rest = image_from(a, hs, k);
    assert(rest == x + new_at(hs, k) + image_from(a, hs, k + 1));
    let bk = d.spec_f2_range()->0.spec_start();
    assert(bk == st.line + x.len());
    lemma_split_suffix(b, st.line, x, new_at(hs, k), image_from(a, hs, k + 1));
    lemma_copy(b, st, bk);
    let s1 = ApplyState { change_index: 0, ..copy_until(b, st, bk)->0 };
    lemma_context_new_len(e, changes(d.spec_modified_lines()), 0, 0);
    lemma_context_reverse_lines(b, s1, h, e, 0);
    let s2 = run_lines(Mode::ContextReverse, b, s1, h, e, 0)->0;
    assert(hunk_step(Mode::ContextReverse, b, st, h) == Some(s2));
    assert(offset(hs, k + 1) == offset(hs, k) + new_at(hs, k).len() - old_of(h).len());
    assert(st.out + a.subrange(resume(hs, k) - 1, resume(hs, k + 1) - 1) =~= s1.out + old_of(h));
}

/// In reverse, applied to the modified file, context hunks from `k` on
/// write the original file from there.
proof fn lemma_context_reverse_hunks(
    a: Seq<Seq<char>>,
    hs: Seq<Hunk>,
    b: Seq<Seq<char>>,
    k: int,
    st: ApplyState,
)
    requires
        context_fits(hs, a),
        b.len() < usize::MAX,
        0 <= k <= hs.len(),
        st.line == resume(hs, k) + offset(hs, k),
        1 <= st.line <= b.len() + 1,
        b.skip(st.line - 1) == image_from(a, hs, k),
    ensures
        run_hunks(Mode::ContextReverse, b, st, hs, k) is Some,
        run_hunks(Mode::ContextReverse, b, st, hs, k)->0.out == st.out + a.subrange(
            resume(hs, k) - 1,
            a.len() as int,
        ),
    decreases hs.len() - k,
{
    lemma_context_fits_end(hs, a);
    if k < hs.len() {
        lemma_context_fits_at(hs, a, k);
        lemma_context_reverse_step(a, hs, b, k, st);
        let s2 = hunk_step(Mode::ContextReverse, b, st, hs[k])->0;
        lemma_context_reverse_hunks(a, hs, b, k + 1, s2);
        assert(resume(hs, k + 1) <= a.len() + 1);
        lemma_resume_positive(hs, k);
        assert(st.out + a.subrange(resume(hs, k) - 1, a.len() as int) =~= s2.out + a.subrange(
            resume(hs, k + 1) - 1,
            a.len() as int,
        ));
    } else {
        assert(st.out + a.subrange(resume(hs, k) - 1, a.len() as int) =~= st.out);
    }
}

/// Context hunks that describe a change of the lines `a`, applied forward
/// to `a`, give the lines of the modified file; applied in reverse to
/// those, they give back `a`, line for line. Without no-newline markers
/// both outputs end with a newline.
pub proof fn lemma_context_round_trip(
    hs: Seq<Hunk>,
    a: Seq<Seq<char>>,
    kind1: FileKind,
    ends1: bool,
    kind2: FileKind,
    ends2: bool,
)
    requires
        context_fits(hs, a),
        image_from(a, hs, 0).len() < usize::MAX,
    ensures
        match apply_result(Mode::ContextForward, hs, a, kind1, ends1) {
            Some((b, newline1)) => b == image_from(a, hs, 0) && (unmarked(hs) ==> newline1)
                && match apply_result(Mode::ContextReverse, hs, b, kind2, ends2) {
                Some((back, newline2)) => back == a && (unmarked(hs) ==> newline2),
                None => false,
            },
            None => false,
        },
{
    let b = image_from(a, hs, 0);
    lemma_context_fits_end(hs, a);
    assert forall|i: int| 0 <= i < hs.len() implies #[trigger] sort_key(Mode::ContextForward, hs[i])
        is Some by {
        lemma_context_fits_at(hs, a, i);
    }
    assert forall|i: int| 0 <= i < hs.len() - 1 implies (#[trigger] sort_key(
        Mode::ContextForward,
        hs[i],
    ))->0 <= sort_key(Mode::ContextForward, hs[i + 1])->0 by {
        lemma_context_fits_at(hs, a, i);
        lemma_context_fits_at(hs, a, i + 1);
    }
    lemma_order_kept(Mode::ContextForward, hs);
    assert forall|i: int| 0 <= i < hs.len() implies #[trigger] sort_key(Mode::ContextReverse, hs[i])
        is Some by {
        lemma_context_fits_at(hs, a, i);
    }
    assert forall|i: int| 0 <= i < hs.len() - 1 implies (#[trigger] sort_key(
        Mode::ContextReverse,
        hs[i],
    ))->0 <= sort_key(Mode::ContextReverse, hs[i + 1])->0 by {
        lemma_context_fits_at(hs, a, i);
        lemma_context_fits_at(hs, a, i + 1);
    }
    lemma_order_kept(Mode::ContextReverse, hs);
    lemma_context_forward_hunks(a, hs, 0, start_state());
    assert(start_state().out + b =~= b);
    assert(b.skip(0) =~= b);
    lemma_context_reverse_hunks(a, hs, b, 0, start_state());
    assert(start_state().out + a.subrange(0, a.len() as int) =~= a);
    if unmarked(hs) {
        lemma_unmarked_output_ends_with_newline(Mode::ContextForward, hs, a, kind1, ends1);
        lemma_unmarked_output_ends_with_newline(Mode::ContextReverse, hs, b, kind2, ends2);
    }
}


/// Where the modified file from position `q` on is `x`, then `y`, then
/// `rest`: the lines from `q` on are `x`, and `rest` follows `y`.
proof fn lemma_split_suffix(
    b: Seq<Seq<char>>,
    q: int,
    x: Seq<Seq<char>>,
    y: Seq<Seq<char>>,
    rest: Seq<Seq<char>>,
)
    requires
        1 <= q <= b.len() + 1,
        b.skip(q - 1) == x + y + rest,
    ensures
        q - 1 + x.len() + y.len() + rest.len() == b.len(),
        b.subrange(q - 1, q - 1 + x.len()) == x,
        b.skip(q - 1 + x.len() + y.len()) == rest,
{
    let all = x + y + rest;
    assert(b.skip(q - 1).len() == all.len());
    let bx = b.subrange(q - 1, q - 1 + x.len());
    assert forall|i: int| 0 <= i < x.len() implies #[trigger] bx[i] == x[i] by {
        assert(b.skip(q - 1)[i] == all[i]);
    }
    assert(bx =~= x);
    let n = x.len() + y.len();
    let bs = b.skip(q - 1 + n);
    assert forall|i: int| 0 <= i < bs.len() implies #[trigger] bs[i] == rest[i] by {
        assert(bs[i] == b.skip(q - 1)[i + n]);
        assert(all[i + n] == rest[i]);
    }
    assert(bs =~= rest);
}

} // verus!
