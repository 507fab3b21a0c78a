use vstd::prelude::*;

use crate::apply_model::{
    all_keyed, apply_result, boundary, copy_until, first_greater, hunk_lines, hunk_step,
    is_terminator, key_pairs, lemma_sort_pairs_members, line_step, run_hunks, run_lines, sort_key,
    sort_pairs, sorted_hunks, ApplyState, Mode,
};
use crate::edit_script_range_data::EditScriptHunkKind;
use crate::emitter::Emitter;
use crate::hunk::Hunk;
use crate::hunks::{outcome, PatchOutput};
use crate::patch_error::{PatchError, PatchResult};
use crate::patch_file::{string_views, FileKind, PatchFile};
use crate::patch_line::{NormalRangeKind, PatchLine};

verus! {

pub open spec fn pair_views(v: Seq<(usize, usize)>) -> Seq<(int, int)> {
    v.map_values(|p: (usize, usize)| (p.0 as int, p.1 as int))
}

/// A step of the emitter followed its model: `r` tells whether the model
/// succeeds, and on success the emitter is in the model's state.
pub open spec fn stepped(r: bool, after: ApplyState, model: Option<ApplyState>) -> bool {
    &&& r == model is Some
    &&& r ==> after == model->0
}

/// The model's result of applying `hunks` to `file` in `mode`.
pub open spec fn applied_to(mode: Mode, hunks: Seq<Hunk>, file: &PatchFile) -> Option<
    (Seq<Seq<char>>, bool),
> {
    apply_result(
        mode,
        hunks,
        file.spec_lines(),
        file.spec_kind(),
        file.spec_ends_with_newline(),
    )
}

/// The hunks in the order that `order` gives.
pub open spec fn ordered<'a>(hunks: Seq<Hunk<'a>>, order: Seq<(int, int)>) -> Seq<Hunk<'a>> {
    order.map_values(|p: (int, int)| hunks[p.1])
}

/// A normal-dialect line, applied forward.
fn normal_line(em: &mut Emitter, src: &Vec<String>, hunk: &Hunk, line: &PatchLine) -> (r:
    bool)
    requires
        !(line is NoNewLine),
    ensures
        stepped(
            r,
            final(em).state(),
            line_step(Mode::NormalForward, string_views(src@), old(em).state(), *hunk, *line),
        ),
{
    match line {
        PatchLine::NormalRange(d) => {
            let left_end = match d.range_left.checked_end() {
                Some(e) => e,
                None => return false,
            };
            if d.range_right.checked_end().is_none() {
                return false;
            }
            let left_diff = left_end - d.range_left.start();
            match d.kind {
                NormalRangeKind::Insert => {
                    if em.line <= d.range_left.start() {
                        em.copy_line(src)
                    } else {
                        true
                    }
                },
                _ => em.advance_past(left_diff),
            }
        },
        PatchLine::NormalChangeSeparator(_) => true,
        PatchLine::NormalLineDelete(_) => true,
        PatchLine::NormalLineInsert(t) => {
            em.emit(t);
            true
        },
        _ => false,
    }
}

/// A normal-dialect line, applied in reverse.
fn normal_reverse_line(
    em: &mut Emitter,
    src: &Vec<String>,
    hunk: &Hunk,
    line: &PatchLine,
) -> (r: bool)
    requires
        !(line is NoNewLine),
    ensures
        stepped(
            r,
            final(em).state(),
            line_step(Mode::NormalReverse, string_views(src@), old(em).state(), *hunk, *line),
        ),
{
    match line {
        PatchLine::NormalRange(d) => {
            let right_end = match d.range_right.checked_end() {
                Some(e) => e,
                None => return false,
            };
            let right_diff = right_end - d.range_right.start();
            match d.kind {
                NormalRangeKind::Delete => {
                    if em.line <= d.range_right.start() {
                        em.copy_line(src)
                    } else {
                        true
                    }
                },
                _ => em.advance_past(right_diff),
            }
        },
        PatchLine::NormalChangeSeparator(_) => true,
        PatchLine::NormalLineInsert(_) => true,
        PatchLine::NormalLineDelete(t) => {
            em.emit(t);
            true
        },
        _ => false,
    }
}

/// A unified-dialect line, applied forward.
fn unified_line(
    em: &mut Emitter,
    src: &Vec<String>,
    hunk: &Hunk,
    line: &PatchLine,
) -> (r: bool)
    requires
        !(line is NoNewLine),
    ensures
        stepped(
            r,
            final(em).state(),
            line_step(Mode::UnifiedForward, string_views(src@), old(em).state(), *hunk, *line),
        ),
{
    match line {
        PatchLine::UnifiedHunkHeader(_) => true,
        PatchLine::UnifiedDeleted(_) => em.advance_past(0),
        PatchLine::UnifiedUnchanged(t) => {
            em.emit(t);
            em.advance_past(0)
        },
        PatchLine::UnifiedInserted(t) => {
            em.emit(t);
            true
        },
        _ => false,
    }
}

/// A unified-dialect line, applied in reverse.
fn unified_reverse_line(
    em: &mut Emitter,
    src: &Vec<String>,
    hunk: &Hunk,
    line: &PatchLine,
) -> (r: bool)
    requires
        !(line is NoNewLine),
    ensures
        stepped(
            r,
            final(em).state(),
            line_step(Mode::UnifiedReverse, string_views(src@), old(em).state(), *hunk, *line),
        ),
{
    match line {
        PatchLine::UnifiedHunkHeader(_) => true,
        PatchLine::UnifiedDeleted(t) => {
            em.emit(t);
            true
        },
        PatchLine::UnifiedUnchanged(t) => {
            em.emit(t);
            em.advance_past(0)
        },
        PatchLine::UnifiedInserted(_) => em.advance_past(0),
        _ => false,
    }
}

/// A context-dialect line, applied forward. A deleted line that is a
/// change writes the next changed line of the modified side instead.
fn context_line(
    em: &mut Emitter,
    src: &Vec<String>,
    hunk: &Hunk,
    line: &PatchLine,
) -> (r: bool)
    requires
        !(line is NoNewLine),
    ensures
        stepped(
            r,
            final(em).state(),
            line_step(Mode::ContextForward, string_views(src@), old(em).state(), *hunk, *line),
        ),
{
    match line {
        PatchLine::ContextInserted(t, is_change) => {
            em.emit(t);
            if *is_change {
                em.advance_past(0)
            } else {
                true
            }
        },
        PatchLine::ContextDeleted(_, is_change) => {
            if *is_change {
                match hunk {
                    Hunk::Context(d) => {
                        match d.change_by_index(em.change_index) {
                            Some(t) => {
                                em.emit(t);
                                em.change_index = em.change_index + 1;
                                em.advance_past(0)
                            },
                            None => false,
                        }
                    },
                    _ => false,
                }
            } else {
                em.advance_past(0)
            }
        },
        PatchLine::ContextUnchanged(t) => {
            em.emit(t);
            em.advance_past(0)
        },
        PatchLine::ContextHunkRange(_, _) => true,
        PatchLine::ContextHunkSeparator(_) => true,
        _ => false,
    }
}

/// A context-dialect line, applied in reverse.
fn context_reverse_line(
    em: &mut Emitter,
    src: &Vec<String>,
    hunk: &Hunk,
    line: &PatchLine,
) -> (r: bool)
    requires
        !(line is NoNewLine),
    ensures
        stepped(
            r,
            final(em).state(),
            line_step(Mode::ContextReverse, string_views(src@), old(em).state(), *hunk, *line),
        ),
{
    match line {
        PatchLine::ContextInserted(_, _) => em.advance_past(0),
        PatchLine::ContextDeleted(t, is_change) => {
            em.emit(t);
            if *is_change {
                em.advance_past(0)
            } else {
                true
            }
        },
        PatchLine::ContextUnchanged(t) => {
            em.emit(t);
            em.advance_past(0)
        },
        PatchLine::ContextHunkRange(_, _) => true,
        PatchLine::ContextHunkSeparator(_) => true,
        _ => false,
    }
}

/// An edit-script line, applied forward.
fn edit_script_line(
    em: &mut Emitter,
    src: &Vec<String>,
    hunk: &Hunk,
    line: &PatchLine,
) -> (r: bool)
    requires
        !(line is NoNewLine),
    ensures
        stepped(
            r,
            final(em).state(),
            line_step(Mode::EditScriptForward, string_views(src@), old(em).state(), *hunk, *line),
        ),
{
    match line {
        PatchLine::EditScriptRange(d) => {
            match d.kind() {
                EditScriptHunkKind::Insert => true,
                EditScriptHunkKind::Delete => {
                    let range = d.range();
                    match range.checked_end() {
                        Some(e) => em.advance_past(e - range.start()),
                        None => false,
                    }
                },
                EditScriptHunkKind::Change => {
                    match hunk {
                        Hunk::EditScript(h) => {
                            let range = h.range();
                            match range.checked_end() {
                                Some(e) => em.advance_past(e - range.start()),
                                None => false,
                            }
                        },
                        _ => false,
                    }
                },
            }
        },
        PatchLine::EditScriptInsert(t) => {
            em.emit(t);
            true
        },
        PatchLine::EditScriptChange(t) => {
            em.emit(t);
            true
        },
        _ => false,
    }
}

/// One line of a hunk, in the given mode.
pub fn apply_line(
    em: &mut Emitter,
    mode: Mode,
    src: &Vec<String>,
    hunk: &Hunk,
    line: &PatchLine,
) -> (r: bool)
    ensures
        stepped(
            r,
            final(em).state(),
            line_step(mode, string_views(src@), old(em).state(), *hunk, *line),
        ),
{
    if let PatchLine::NoNewLine(_) = line {
        em.count_no_newline();
        return true;
    }
    match mode {
        Mode::NormalForward => normal_line(em, src, hunk, line),
        Mode::NormalReverse => normal_reverse_line(em, src, hunk, line),
        Mode::UnifiedForward => unified_line(em, src, hunk, line),
        Mode::UnifiedReverse => unified_reverse_line(em, src, hunk, line),
        Mode::ContextForward => context_line(em, src, hunk, line),
        Mode::ContextReverse => context_reverse_line(em, src, hunk, line),
        Mode::EditScriptForward => edit_script_line(em, src, hunk, line),
    }
}

/// Applies the lines of a hunk in turn, up to an edit script's final `.`.
pub fn apply_lines(
    em: &mut Emitter,
    mode: Mode,
    src: &Vec<String>,
    hunk: &Hunk,
    lines: &Vec<PatchLine>,
) -> (r: bool)
    ensures
        stepped(
            r,
            final(em).state(),
            run_lines(mode, string_views(src@), old(em).state(), *hunk, lines@, 0),
        ),
{
    let ghost s = string_views(src@);
    let ghost goal = run_lines(mode, s, em.state(), *hunk, lines@, 0);
    let n = lines.len();
    let mut j: usize = 0;
    while j < n
        invariant
            s == string_views(src@),
            n == lines@.len(),
            j <= n,
            goal == run_lines(mode, s, old(em).state(), *hunk, lines@, 0),
            run_lines(mode, s, em.state(), *hunk, lines@, j as int) == goal,
        decreases n - j,
    {
        if mode == Mode::EditScriptForward && j == n - 1 {
            let text = lines[j].line();
            if text.unicode_len() == 1 && text.get_char(0) == '.' {
                proof {
                    assert(text@ =~= seq!['.']);
                    assert(is_terminator(mode, lines@, j as int));
                }
                return true;
            }
            proof {
                if text@.len() == 1 {
                    assert(text@[0] != '.');
                }
                assert(text@ != seq!['.']);
            }
        }
        proof {
            assert(!is_terminator(mode, lines@, j as int));
        }
        if !apply_line(em, mode, src, hunk, &lines[j]) {
            return false;
        }
        j = j + 1;
    }
    true
}

/// The lines of a hunk that application walks.
pub fn lines_of<'b, 'a>(hunk: &'b Hunk<'a>) -> (r: &'b Vec<PatchLine<'a>>)
    ensures
        r@ == hunk_lines(*hunk),
{
    match hunk {
        Hunk::Normal(d) => d.lines(),
        Hunk::Unified(d) => d.lines(),
        Hunk::Context(d) => if d.is_original_empty() {
            d.modified_lines()
        } else {
            d.original_lines()
        },
        Hunk::EditScript(d) => d.lines(),
    }
}

/// The source line before which the hunk takes over, in the given mode.
pub fn boundary_of(mode: Mode, hunk: &Hunk) -> (r: Option<usize>)
    ensures
        match r {
            Some(b) => boundary(mode, *hunk) == Some(b as int),
            None => boundary(mode, *hunk) is None,
        },
{
    match (mode, hunk) {
        (Mode::NormalForward, Hunk::Normal(d)) => Some(d.range_left().start()),
        (Mode::NormalReverse, Hunk::Normal(d)) => Some(d.range_right().start()),
        (Mode::UnifiedForward, Hunk::Unified(d)) => Some(d.f1_range().start()),
        (Mode::UnifiedReverse, Hunk::Unified(d)) => Some(d.f2_range().start()),
        (Mode::ContextForward, Hunk::Context(d)) => match d.f1_range() {
            Some(r) => Some(r.start()),
            None => None,
        },
        (Mode::ContextReverse, Hunk::Context(d)) => match d.f2_range() {
            Some(r) => Some(r.start()),
            None => None,
        },
        (Mode::EditScriptForward, Hunk::EditScript(d)) => {
            let start = d.range().start();
            match d.kind() {
                EditScriptHunkKind::Insert => if start < usize::MAX {
                    Some(start + 1)
                } else {
                    None
                },
                _ => Some(start),
            }
        },
        _ => None,
    }
}

/// Copies the source up to the hunk's boundary, then applies its lines.
pub fn apply_hunk(em: &mut Emitter, mode: Mode, src: &Vec<String>, hunk: &Hunk) -> (r: bool)
    ensures
        stepped(r, final(em).state(), hunk_step(mode, string_views(src@), old(em).state(), *hunk)),
{
    let b = match boundary_of(mode, hunk) {
        Some(b) => b,
        None => return false,
    };
    if b > 0 {
        if !em.copy_through(src, b - 1) {
            return false;
        }
    } else {
        proof {
            assert(copy_until(string_views(src@), em.state(), 0) == Some(em.state()));
        }
    }
    em.change_index = 0;
    apply_lines(em, mode, src, hunk, lines_of(hunk))
}

/// The key by which the hunk is ordered, in the given mode.
pub fn sort_key_of(mode: Mode, hunk: &Hunk) -> (r: Option<usize>)
    ensures
        match r {
            Some(k) => sort_key(mode, *hunk) == Some(k as int),
            None => sort_key(mode, *hunk) is None,
        },
{
    match (mode, hunk) {
        (Mode::NormalForward, Hunk::Normal(d)) => Some(d.range_right().start()),
        (Mode::NormalReverse, Hunk::Normal(d)) => Some(d.range_left().start()),
        (Mode::UnifiedForward, Hunk::Unified(d)) => Some(d.f1_range().start()),
        (Mode::UnifiedReverse, Hunk::Unified(d)) => d.f2_range().checked_end(),
        (Mode::ContextForward, Hunk::Context(d)) => match d.f1_range() {
            Some(r) => Some(r.start()),
            None => None,
        },
        (Mode::ContextReverse, Hunk::Context(d)) => match d.f1_range() {
            Some(r) => Some(r.start()),
            None => None,
        },
        (Mode::EditScriptForward, Hunk::EditScript(d)) => d.range().checked_end(),
        _ => None,
    }
}

/// Positions of the hunks, stably sorted by their keys.
pub fn hunk_order(mode: Mode, hunks: &Vec<Hunk>) -> (r: Option<Vec<(usize, usize)>>)
    ensures
        r is Some <==> all_keyed(mode, hunks@),
        r matches Some(v) ==> pair_views(v@) == sort_pairs(key_pairs(mode, hunks@)),
{
    let n = hunks.len();
    let mut pairs: Vec<(usize, usize)> = Vec::new();
    let mut i: usize = 0;
    while i < n
        invariant
            n == hunks@.len(),
            i <= n,
            pairs@.len() == i,
            forall|k: int| 0 <= k < i ==> #[trigger] sort_key(mode, hunks@[k]) is Some,
            forall|k: int| 0 <= k < i ==> #[trigger] pair_views(pairs@)[k] == (sort_key(mode, hunks@[k])->0, k),
        decreases n - i,
    {
        let ghost prev = pairs@;
        match sort_key_of(mode, &hunks[i]) {
            Some(k) => {
                pairs.push((k, i));
                proof {
                    assert(pair_views(pairs@) =~= pair_views(prev).push((k as int, i as int)));
                }
            },
            None => {
                return None;
            },
        }
        i = i + 1;
    }
    let ghost all = key_pairs(mode, hunks@);
    proof {
        assert(pair_views(pairs@) =~= all);
    }
    let mut sorted: Vec<(usize, usize)> = Vec::new();
    let mut i: usize = 0;
    proof {
        assert(all.take(0) =~= Seq::<(int, int)>::empty());
        assert(pair_views(sorted@) =~= Seq::<(int, int)>::empty());
    }
    while i < n
        invariant
            n == pairs@.len(),
            all == pair_views(pairs@),
            i <= n,
            pair_views(sorted@) == sort_pairs(all.take(i as int)),
        decreases n - i,
    {
        let x = pairs[i];
        let ghost v = pair_views(sorted@);
        let ghost xv = (x.0 as int, x.1 as int);
        let mut j: usize = 0;
        while j < sorted.len() && sorted[j].0 <= x.0
            invariant
                v == pair_views(sorted@),
                xv == (x.0 as int, x.1 as int),
                j <= sorted@.len(),
                first_greater(v, xv.0, j as int) == first_greater(v, xv.0, 0),
            decreases sorted@.len() - j,
        {
            proof {
                assert(v[j as int] == (sorted@[j as int].0 as int, sorted@[j as int].1 as int));
                assert(v[j as int].0 <= xv.0);
                assert(first_greater(v, xv.0, j as int) == first_greater(v, xv.0, j + 1));
            }
            j = j + 1;
        }
        proof {
            if j < sorted@.len() {
                assert(v[j as int] == (sorted@[j as int].0 as int, sorted@[j as int].1 as int));
            }
            assert(first_greater(v, xv.0, 0) == j);
            assert(all.take(i + 1).drop_last() =~= all.take(i as int));
            assert(all.take(i + 1).last() == xv);
        }
        sorted.insert(j, x);
        proof {
            assert(pair_views(sorted@) =~= v.insert(j as int, xv));
        }
        i = i + 1;
    }
    proof {
        assert(all.take(n as int) =~= all);
    }
    Some(sorted)
}

/// Applies the hunks in the order given.
pub fn apply_hunks(
    em: &mut Emitter,
    mode: Mode,
    src: &Vec<String>,
    hunks: &Vec<Hunk>,
    order: &Vec<(usize, usize)>,
) -> (r: bool)
    requires
        forall|k: int| 0 <= k < order@.len() ==> #[trigger] order@[k].1 < hunks@.len(),
    ensures
        stepped(
            r,
            final(em).state(),
            run_hunks(
                mode,
                string_views(src@),
                old(em).state(),
                ordered(hunks@, pair_views(order@)),
                0,
            ),
        ),
{
    let ghost s = string_views(src@);
    let ghost hs = ordered(hunks@, pair_views(order@));
    let ghost goal = run_hunks(mode, s, em.state(), hs, 0);
    let n = order.len();
    let mut i: usize = 0;
    while i < n
        invariant
            s == string_views(src@),
            hs == ordered(hunks@, pair_views(order@)),
            n == order@.len(),
            hs.len() == n,
            forall|k: int| 0 <= k < order@.len() ==> #[trigger] order@[k].1 < hunks@.len(),
            i <= n,
            goal == run_hunks(mode, s, old(em).state(), hs, 0),
            run_hunks(mode, s, em.state(), hs, i as int) == goal,
        decreases n - i,
    {
        let p = order[i];
        proof {
            assert(hs[i as int] == hunks@[p.1 as int]);
        }
        if !apply_hunk(em, mode, src, &hunks[p.1]) {
            return false;
        }
        i = i + 1;
    }
    true
}

/// Applies the hunks to the source lines of `file` in the given mode.
pub fn apply_mode(mode: Mode, hunks: &Vec<Hunk>, file: &PatchFile) -> (r: PatchResult<PatchOutput>)
    ensures
        outcome(r, applied_to(mode, hunks@, file)),
{
    let order = match hunk_order(mode, hunks) {
        Some(o) => o,
        None => return Err(PatchError::Error("A hunk lacks the range that orders it.")),
    };
    proof {
        let kp = key_pairs(mode, hunks@);
        lemma_sort_pairs_members(kp, hunks@.len() as int);
        assert forall|k: int| 0 <= k < order@.len() implies #[trigger] order@[k].1 < hunks@.len() by {
            assert(pair_views(order@)[k].1 == order@[k].1 as int);
        }
        assert(ordered(hunks@, pair_views(order@)) =~= sorted_hunks(mode, hunks@));
    }
    let src = file.lines();
    let mut em = Emitter::new();
    if !apply_hunks(&mut em, mode, src, hunks, &order) {
        return Err(PatchError::Error("The hunks do not fit the file."));
    }
    if mode == Mode::EditScriptForward && src.len() >= em.line {
        if !em.copy_through(src, src.len()) {
            return Err(PatchError::Error("The hunks do not fit the file."));
        }
    }
    let nl = em.no_newline;
    let final_newline = nl == 0 || (nl == 1 && file.kind() == (if mode == Mode::ContextReverse {
        FileKind::Modified
    } else {
        FileKind::Original
    }) && !file.ends_with_newline());
    Ok(PatchOutput::new(em.out, final_newline))
}

} // verus!
