use vstd::prelude::*;

use crate::context_hunk_data::changes;
use crate::edit_script_range_data::EditScriptHunkKind;
use crate::hunk::Hunk;
use crate::patch_file::FileKind;
use crate::patch_line::{NormalRangeKind, PatchLine};
use crate::range::Range;

verus! {

/// One of the seven ways of applying hunks: a dialect and a direction.
#[derive(Clone, Copy, Debug, PartialEq, Eq, Structural)]
pub enum Mode {
    NormalForward,
    NormalReverse,
    UnifiedForward,
    UnifiedReverse,
    ContextForward,
    ContextReverse,
    EditScriptForward,
}

/// Where an application stands: the next source line to read (from 1), the
/// lines written so far, the no-newline markers seen (counted up to 2), and
/// how many changed lines of context hunks have been used.
pub struct ApplyState {
    pub line: int,
    pub out: Seq<Seq<char>>,
    pub no_newline: int,
    pub change_index: int,
}

pub open spec fn start_state() -> ApplyState {
    ApplyState { line: 1, out: Seq::empty(), no_newline: 0, change_index: 0 }
}

/// Moves the source cursor `n` lines on, unless it would pass `usize::MAX`.
pub open spec fn advance(st: ApplyState, n: int) -> Option<ApplyState> {
    if st.line + n <= usize::MAX {
        Some(ApplyState { line: st.line + n, ..st })
    } else {
        None
    }
}

pub open spec fn emit(st: ApplyState, text: Seq<char>) -> ApplyState {
    ApplyState { out: st.out.push(text), ..st }
}

pub open spec fn count_no_newline(st: ApplyState) -> ApplyState {
    ApplyState { no_newline: if st.no_newline < 2 { st.no_newline + 1 } else { st.no_newline }, ..st }
}

/// Writes the source line under the cursor and moves past it; `None` where
/// the cursor is not on a line of the source.
pub open spec fn copy_line(src: Seq<Seq<char>>, st: ApplyState) -> Option<ApplyState> {
    if 1 <= st.line <= src.len() {
        advance(emit(st, src[st.line - 1]), 1)
    } else {
        None
    }
}

pub open spec fn copy_lines(src: Seq<Seq<char>>, st: ApplyState, n: nat) -> Option<ApplyState>
    decreases n,
{
    if n == 0 {
        Some(st)
    } else {
        match copy_line(src, st) {
            Some(s) => copy_lines(src, s, (n - 1) as nat),
            None => None,
        }
    }
}

/// Copies the source lines from the cursor up to, not including, line `to`.
pub open spec fn copy_until(src: Seq<Seq<char>>, st: ApplyState, to: int) -> Option<ApplyState> {
    if to > st.line {
        copy_lines(src, st, (to - st.line) as nat)
    } else {
        Some(st)
    }
}

/// The number of lines that a range spans less one, where its end exists.
pub open spec fn span(r: Range) -> Option<int> {
    if r.has_end() {
        Some(r.spec_end() - r.spec_start())
    } else {
        None
    }
}

/// What one line of a hunk does to the state; `None` for a line that cannot
/// stand in the mode's dialect, or where the source or the cursor run out.
pub open spec fn line_step(
    mode: Mode,
    src: Seq<Seq<char>>,
    st: ApplyState,
    hunk: Hunk,
    line: PatchLine,
) -> Option<ApplyState> {
    if line is NoNewLine {
        Some(count_no_newline(st))
    } else {
        match mode {
            Mode::NormalForward => match line {
                PatchLine::NormalRange(d) => {
                    if span(d.range_left) is Some && span(d.range_right) is Some {
                        match d.kind {
                            NormalRangeKind::Insert => if st.line <= d.range_left.spec_start() {
                                copy_line(src, st)
                            } else {
                                Some(st)
                            },
                            _ => advance(st, span(d.range_left)->0 + 1),
                        }
                    } else {
                        None
                    }
                },
                PatchLine::NormalChangeSeparator(_) => Some(st),
                PatchLine::NormalLineDelete(_) => Some(st),
                PatchLine::NormalLineInsert(t) => Some(emit(st, t@)),
                _ => None,
            },
            Mode::NormalReverse => match line {
                PatchLine::NormalRange(d) => {
                    if span(d.range_right) is Some {
                        match d.kind {
                            NormalRangeKind::Delete => if st.line <= d.range_right.spec_start() {
                                copy_line(src, st)
                            } else {
                                Some(st)
                            },
                            _ => advance(st, span(d.range_right)->0 + 1),
                        }
                    } else {
                        None
                    }
                },
                PatchLine::NormalChangeSeparator(_) => Some(st),
                PatchLine::NormalLineInsert(_) => Some(st),
                PatchLine::NormalLineDelete(t) => Some(emit(st, t@)),
                _ => None,
            },
            Mode::UnifiedForward => match line {
                PatchLine::UnifiedHunkHeader(_) => Some(st),
                PatchLine::UnifiedDeleted(_) => advance(st, 1),
                PatchLine::UnifiedUnchanged(t) => advance(emit(st, t@), 1),
                PatchLine::UnifiedInserted(t) => Some(emit(st, t@)),
                _ => None,
            },
            Mode::UnifiedReverse => match line {
                PatchLine::UnifiedHunkHeader(_) => Some(st),
                PatchLine::UnifiedDeleted(t) => Some(emit(st, t@)),
                PatchLine::UnifiedUnchanged(t) => advance(emit(st, t@), 1),
                PatchLine::UnifiedInserted(_) => advance(st, 1),
                _ => None,
            },
            Mode::ContextForward => match line {
                PatchLine::ContextInserted(t, is_change) => if is_change {
                    advance(emit(st, t@), 1)
                } else {
                    Some(emit(st, t@))
                },
                PatchLine::ContextDeleted(_, is_change) => if is_change {
                    match hunk {
                        Hunk::Context(d) => {
                            let cs = changes(d.spec_modified_lines());
                            if 0 <= st.change_index < cs.len() {
                                advance(
                                    ApplyState {
                                        change_index: st.change_index + 1,
                                        ..emit(st, cs[st.change_index])
                                    },
                                    1,
                                )
                            } else {
                                None
                            }
                        },
                        _ => None,
                    }
                } else {
                    advance(st, 1)
                },
                PatchLine::ContextUnchanged(t) => advance(emit(st, t@), 1),
                PatchLine::ContextHunkRange(_, _) => Some(st),
                PatchLine::ContextHunkSeparator(_) => Some(st),
                _ => None,
            },
            Mode::ContextReverse => match line {
                PatchLine::ContextInserted(_, _) => advance(st, 1),
                PatchLine::ContextDeleted(t, is_change) => if is_change {
                    advance(emit(st, t@), 1)
                } else {
                    Some(emit(st, t@))
                },
                PatchLine::ContextUnchanged(t) => advance(emit(st, t@), 1),
                PatchLine::ContextHunkRange(_, _) => Some(st),
                PatchLine::ContextHunkSeparator(_) => Some(st),
                _ => None,
            },
            Mode::EditScriptForward => match line {
                PatchLine::EditScriptRange(d) => match d.spec_kind() {
                    EditScriptHunkKind::Insert => Some(st),
                    EditScriptHunkKind::Delete => match span(d.spec_range()) {
                        Some(n) => advance(st, n + 1),
                        None => None,
                    },
                    EditScriptHunkKind::Change => match hunk {
                        Hunk::EditScript(h) => match span(h.spec_range()) {
                            Some(n) => advance(st, n + 1),
                            None => None,
                        },
                        _ => None,
                    },
                },
                PatchLine::EditScriptInsert(t) => Some(emit(st, t@)),
                PatchLine::EditScriptChange(t) => Some(emit(st, t@)),
                _ => None,
            },
        }
    }
}

/// An edit script ends its last hunk with a line holding only `.`, which
/// is not applied.
pub open spec fn is_terminator(mode: Mode, lines: Seq<PatchLine>, j: int) -> bool {
    &&& mode == Mode::EditScriptForward
    &&& j == lines.len() - 1
    &&& lines[j].spec_text() == seq!['.']
}

/// Applies `lines[j..]` in turn.
pub open spec fn run_lines(
    mode: Mode,
    src: Seq<Seq<char>>,
    st: ApplyState,
    hunk: Hunk,
    lines: Seq<PatchLine>,
    j: int,
) -> Option<ApplyState>
    decreases lines.len() - j,
{
    if j < 0 || j >= lines.len() || is_terminator(mode, lines, j) {
        Some(st)
    } else {
        match line_step(mode, src, st, hunk, lines[j]) {
            Some(s) => run_lines(mode, src, s, hunk, lines, j + 1),
            None => None,
        }
    }
}

/// The source line before which the hunk takes over.
pub open spec fn boundary(mode: Mode, hunk: Hunk) -> Option<int> {
    match (mode, hunk) {
        (Mode::NormalForward, Hunk::Normal(d)) => Some(d.spec_range_left().spec_start()),
        (Mode::NormalReverse, Hunk::Normal(d)) => Some(d.spec_range_right().spec_start()),
        (Mode::UnifiedForward, Hunk::Unified(d)) => Some(d.spec_f1_range().spec_start()),
        (Mode::UnifiedReverse, Hunk::Unified(d)) => Some(d.spec_f2_range().spec_start()),
        (Mode::ContextForward, Hunk::Context(d)) => match d.spec_f1_range() {
            Some(r) => Some(r.spec_start()),
            None => None,
        },
        (Mode::ContextReverse, Hunk::Context(d)) => match d.spec_f2_range() {
            Some(r) => Some(r.spec_start()),
            None => None,
        },
        (Mode::EditScriptForward, Hunk::EditScript(d)) => if d.spec_kind()
            == EditScriptHunkKind::Insert {
            if d.spec_range().spec_start() < usize::MAX {
                Some(d.spec_range().spec_start() + 1)
            } else {
                None
            }
        } else {
            Some(d.spec_range().spec_start())
        },
        _ => None,
    }
}

/// The lines of a hunk that application walks.
pub open spec fn hunk_lines<'a>(hunk: Hunk<'a>) -> Seq<PatchLine<'a>> {
    match hunk {
        Hunk::Normal(d) => d.spec_lines(),
        Hunk::Unified(d) => d.spec_lines(),
        Hunk::Context(d) => d.spec_effective_lines(),
        Hunk::EditScript(d) => d.spec_lines(),
    }
}

/// Copies the source up to the hunk's boundary, then applies its lines;
/// the changed lines of a hunk are counted from its first one.
pub open spec fn hunk_step(mode: Mode, src: Seq<Seq<char>>, st: ApplyState, hunk: Hunk) -> Option<
    ApplyState,
> {
    match boundary(mode, hunk) {
        Some(b) => match copy_until(src, st, b) {
            Some(s) => run_lines(
                mode,
                src,
                ApplyState { change_index: 0, ..s },
                hunk,
                hunk_lines(hunk),
                0,
            ),
            None => None,
        },
        None => None,
    }
}

/// Applies `hunks[i..]` in turn.
pub open spec fn run_hunks(mode: Mode, src: Seq<Seq<char>>, st: ApplyState, hunks: Seq<Hunk>, i: int) -> Option<
    ApplyState,
>
    decreases hunks.len() - i,
{
    if i < 0 || i >= hunks.len() {
        Some(st)
    } else {
        match hunk_step(mode, src, st, hunks[i]) {
            Some(s) => run_hunks(mode, src, s, hunks, i + 1),
            None => None,
        }
    }
}

/// The key by which hunks are ordered before they are applied.
pub open spec fn sort_key(mode: Mode, hunk: Hunk) -> Option<int> {
    match (mode, hunk) {
        (Mode::NormalForward, Hunk::Normal(d)) => Some(d.spec_range_right().spec_start()),
        (Mode::NormalReverse, Hunk::Normal(d)) => Some(d.spec_range_left().spec_start()),
        (Mode::UnifiedForward, Hunk::Unified(d)) => Some(d.spec_f1_range().spec_start()),
        (Mode::UnifiedReverse, Hunk::Unified(d)) => if d.spec_f2_range().has_end() {
            Some(d.spec_f2_range().spec_end())
        } else {
            None
        },
        (Mode::ContextForward, Hunk::Context(d)) => match d.spec_f1_range() {
            Some(r) => Some(r.spec_start()),
            None => None,
        },
        (Mode::ContextReverse, Hunk::Context(d)) => match d.spec_f1_range() {
            Some(r) => Some(r.spec_start()),
            None => None,
        },
        (Mode::EditScriptForward, Hunk::EditScript(d)) => if d.spec_range().has_end() {
            Some(d.spec_range().spec_end())
        } else {
            None
        },
        _ => None,
    }
}

pub open spec fn all_keyed(mode: Mode, hunks: Seq<Hunk>) -> bool {
    forall|i: int| 0 <= i < hunks.len() ==> #[trigger] sort_key(mode, hunks[i]) is Some
}

/// Each hunk's key with its position.
pub open spec fn key_pairs(mode: Mode, hunks: Seq<Hunk>) -> Seq<(int, int)> {
    Seq::new(hunks.len(), |i: int| (sort_key(mode, hunks[i])->0, i))
}

/// The first position from `j` on whose key is greater than `key`.
pub open spec fn first_greater(s: Seq<(int, int)>, key: int, j: int) -> int
    decreases s.len() - j,
{
    if j < 0 || j >= s.len() {
        s.len() as int
    } else if s[j].0 > key {
        j
    } else {
        first_greater(s, key, j + 1)
    }
}

/// Inserts after every element whose key is not greater: the order of
/// equal keys is kept.
pub open spec fn insert_by_key(s: Seq<(int, int)>, x: (int, int)) -> Seq<(int, int)> {
    s.insert(first_greater(s, x.0, 0), x)
}

/// A stable sort by key.
pub open spec fn sort_pairs(s: Seq<(int, int)>) -> Seq<(int, int)>
    decreases s.len(),
{
    if s.len() == 0 {
        s
    } else {
        insert_by_key(sort_pairs(s.drop_last()), s.last())
    }
}

/// The hunks in the order in which they are applied.
pub open spec fn sorted_hunks<'a>(mode: Mode, hunks: Seq<Hunk<'a>>) -> Seq<Hunk<'a>> {
    sort_pairs(key_pairs(mode, hunks)).map_values(|p: (int, int)| hunks[p.1])
}

/// After the last hunk an edit script copies the rest of the source.
pub open spec fn finish_source(mode: Mode, src: Seq<Seq<char>>, st: ApplyState) -> Option<ApplyState> {
    if mode == Mode::EditScriptForward && src.len() >= st.line {
        copy_until(src, st, src.len() as int + 1)
    } else {
        Some(st)
    }
}

/// The side whose missing final newline is checked: the modified file for
/// a reversed context patch, the original one otherwise.
pub open spec fn checked_kind(mode: Mode) -> FileKind {
    if mode == Mode::ContextReverse {
        FileKind::Modified
    } else {
        FileKind::Original
    }
}

/// No marker: a final newline. One marker: a final newline where the checked
/// side's file lacks one. More: none.
pub open spec fn final_newline(mode: Mode, no_newline: int, kind: FileKind, ends_with_newline: bool) -> bool {
    no_newline == 0 || (no_newline == 1 && kind == checked_kind(mode) && !ends_with_newline)
}

/// The lines written and whether a final newline follows them; `None` where
/// application fails.
pub open spec fn apply_result(
    mode: Mode,
    hunks: Seq<Hunk>,
    src: Seq<Seq<char>>,
    kind: FileKind,
    ends_with_newline: bool,
) -> Option<(Seq<Seq<char>>, bool)> {
    if !all_keyed(mode, hunks) {
        None
    } else {
        match run_hunks(mode, src, start_state(), sorted_hunks(mode, hunks), 0) {
            Some(s) => match finish_source(mode, src, s) {
                Some(f) => Some((f.out, final_newline(mode, f.no_newline, kind, ends_with_newline))),
                None => None,
            },
            None => None,
        }
    }
}

pub proof fn lemma_first_greater_bounds(s: Seq<(int, int)>, key: int, j: int)
    requires
        0 <= j <= s.len(),
    ensures
        j <= first_greater(s, key, j) <= s.len(),
    decreases s.len() - j,
{
    if j < s.len() && s[j].0 <= key {
        lemma_first_greater_bounds(s, key, j + 1);
    }
}

/// Sorting keeps the length and takes its elements from the input.
pub proof fn lemma_sort_pairs_members(s: Seq<(int, int)>, bound: int)
    requires
        forall|j: int| 0 <= j < s.len() ==> 0 <= #[trigger] s[j].1 < bound,
    ensures
        sort_pairs(s).len() == s.len(),
        forall|k: int| 0 <= k < s.len() ==> 0 <= #[trigger] sort_pairs(s)[k].1 < bound,
    decreases s.len(),
{
    if s.len() > 0 {
        let t = s.drop_last();
        assert forall|j: int| 0 <= j < t.len() implies 0 <= #[trigger] t[j].1 < bound by {
            assert(t[j] == s[j]);
        }
        lemma_sort_pairs_members(t, bound);
        let st = sort_pairs(t);
        lemma_first_greater_bounds(st, s.last().0, 0);
        let p = first_greater(st, s.last().0, 0);
        let r = st.insert(p, s.last());
        assert forall|k: int| 0 <= k < s.len() implies 0 <= #[trigger] r[k].1 < bound by {
            if k < p {
                assert(r[k] == st[k]);
            } else if k > p {
                assert(r[k] == st[k - 1]);
            }
        }
    }
}


/// The final-newline rule: without a no-newline marker the output always
/// ends with a newline; after exactly one it does so exactly where the
/// checked side's file lacks a final newline of its own; after more it
/// never does.
pub proof fn lemma_final_newline_rule(mode: Mode, kind: FileKind, ends_with_newline: bool)
    ensures
        final_newline(mode, 0, kind, ends_with_newline),
        final_newline(mode, 1, kind, ends_with_newline) <==> (kind == checked_kind(mode)
            && !ends_with_newline),
        !final_newline(mode, 2, kind, ends_with_newline),
{
}


/// No hunk holds a no-newline marker among the lines that are applied.
pub open spec fn unmarked(hunks: Seq<Hunk>) -> bool {
    forall|i: int, j: int|
        0 <= i < hunks.len() && 0 <= j < hunk_lines(hunks[i]).len() ==> !(#[trigger] hunk_lines(
            hunks[i],
        )[j] is NoNewLine)
}

proof fn lemma_copy_keeps_count(src: Seq<Seq<char>>, st: ApplyState, n: nat)
    ensures
        copy_lines(src, st, n) matches Some(s) ==> s.no_newline == st.no_newline,
    decreases n,
{
    if n > 0 {
        if let Some(s1) = copy_line(src, st) {
            lemma_copy_keeps_count(src, s1, (n - 1) as nat);
        }
    }
}

proof fn lemma_lines_keep_count(
    mode: Mode,
    src: Seq<Seq<char>>,
    st: ApplyState,
    hunk: Hunk,
    lines: Seq<PatchLine>,
    j: int,
)
    requires
        forall|k: int| 0 <= k < lines.len() ==> !(#[trigger] lines[k] is NoNewLine),
    ensures
        run_lines(mode, src, st, hunk, lines, j) matches Some(s) ==> s.no_newline == st.no_newline,
    decreases lines.len() - j,
{
    if 0 <= j < lines.len() && !is_terminator(mode, lines, j) {
        assert(!(lines[j] is NoNewLine));
        if let Some(s1) = line_step(mode, src, st, hunk, lines[j]) {
            assert(s1.no_newline == st.no_newline);
            lemma_lines_keep_count(mode, src, s1, hunk, lines, j + 1);
        }
    }
}

proof fn lemma_hunks_keep_count(
    mode: Mode,
    src: Seq<Seq<char>>,
    st: ApplyState,
    hunks: Seq<Hunk>,
    i: int,
)
    requires
        unmarked(hunks),
    ensures
        run_hunks(mode, src, st, hunks, i) matches Some(s) ==> s.no_newline == st.no_newline,
    decreases hunks.len() - i,
{
    if 0 <= i < hunks.len() {
        let h = hunks[i];
        if let Some(b) = boundary(mode, h) {
            if b > st.line {
                lemma_copy_keeps_count(src, st, (b - st.line) as nat);
            }
            if let Some(s1) = copy_until(src, st, b) {
                let lines = hunk_lines(h);
                assert forall|k: int| 0 <= k < lines.len() implies !(#[trigger] lines[k] is NoNewLine) by {
                    assert(!(hunk_lines(hunks[i])[k] is NoNewLine));
                }
                let s0 = ApplyState { change_index: 0, ..s1 };
                lemma_lines_keep_count(mode, src, s0, h, lines, 0);
                if let Some(s2) = run_lines(mode, src, s0, h, lines, 0) {
                    lemma_hunks_keep_count(mode, src, s2, hunks, i + 1);
                }
            }
        }
    }
}

/// Without a no-newline marker among the lines of the hunks, an
/// application that succeeds always ends its output with a newline.
pub proof fn lemma_unmarked_output_ends_with_newline(
    mode: Mode,
    hunks: Seq<Hunk>,
    src: Seq<Seq<char>>,
    kind: FileKind,
    ends_with_newline: bool,
)
    requires
        unmarked(hunks),
    ensures
        match apply_result(mode, hunks, src, kind, ends_with_newline) {
            Some((_, newline)) => newline,
            None => true,
        },
{
    if all_keyed(mode, hunks) {
        let kp = key_pairs(mode, hunks);
        lemma_sort_pairs_members(kp, hunks.len() as int);
        let sorted = sorted_hunks(mode, hunks);
        assert forall|i: int, j: int|
            0 <= i < sorted.len() && 0 <= j < hunk_lines(sorted[i]).len() implies !(
            #[trigger] hunk_lines(sorted[i])[j] is NoNewLine) by {
            let p = sort_pairs(kp)[i].1;
            assert(sorted[i] == hunks[p]);
            assert(!(hunk_lines(hunks[p])[j] is NoNewLine));
        }
        lemma_hunks_keep_count(mode, src, start_state(), sorted, 0);
        if let Some(s) = run_hunks(mode, src, start_state(), sorted, 0) {
            if mode == Mode::EditScriptForward && src.len() >= s.line {
                lemma_copy_keeps_count(src, s, (src.len() + 1 - s.line) as nat);
            }
        }
    }
}

} // verus!
