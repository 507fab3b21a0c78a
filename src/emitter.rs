use vstd::prelude::*;

use crate::apply_model::{
    advance, copy_line, copy_lines, copy_until, count_no_newline, emit, start_state, ApplyState,
};
use crate::patch_file::string_views;

verus! {

/// The running state of an application: the source cursor, the lines
/// written, the no-newline markers seen and the changed lines used.
pub struct Emitter {
    pub line: usize,
    pub out: Vec<String>,
    pub no_newline: usize,
    pub change_index: usize,
}

impl Emitter {
    pub open spec fn state(&self) -> ApplyState {
        ApplyState {
            line: self.line as int,
            out: string_views(self.out@),
            no_newline: self.no_newline as int,
            change_index: self.change_index as int,
        }
    }

    pub fn new() -> (r: Self)
        ensures
            r.state() == start_state(),
    {
        let r = Emitter { line: 1, out: Vec::new(), no_newline: 0, change_index: 0 };
        proof {
            assert(string_views(r.out@) =~= Seq::<Seq<char>>::empty());
        }
        r
    }

    pub fn emit(&mut self, text: &str)
        ensures
            final(self).state() == emit(old(self).state(), text@),
    {
        let ghost prev = self.out@;
        self.out.push(text.to_owned());
        proof {
            assert(string_views(self.out@) =~= string_views(prev).push(text@));
        }
    }

    /// Moves the cursor past `d + 1` lines.
    pub fn advance_past(&mut self, d: usize) -> (r: bool)
        ensures
            r == advance(old(self).state(), d + 1) is Some,
            r ==> final(self).state() == advance(old(self).state(), d + 1)->0,
    {
        if self.line < usize::MAX && d <= usize::MAX - 1 - self.line {
            self.line = self.line + d + 1;
            true
        } else {
            false
        }
    }

    pub fn count_no_newline(&mut self)
        ensures
            final(self).state() == count_no_newline(old(self).state()),
    {
        if self.no_newline < 2 {
            self.no_newline = self.no_newline + 1;
        }
    }

    /// Writes the source line under the cursor and moves past it.
    pub fn copy_line(&mut self, src: &Vec<String>) -> (r: bool)
        ensures
            r == copy_line(string_views(src@), old(self).state()) is Some,
            r ==> final(self).state() == copy_line(string_views(src@), old(self).state())->0,
    {
        if 1 <= self.line && self.line <= src.len() {
            proof {
                assert(string_views(src@)[self.line - 1] == src@[self.line - 1]@);
            }
            self.emit(src[self.line - 1].as_str());
            self.advance_past(0)
        } else {
            false
        }
    }

    /// Copies the source lines from the cursor through line `last`.
    pub fn copy_through(&mut self, src: &Vec<String>, last: usize) -> (r: bool)
        ensures
            r == copy_until(string_views(src@), old(self).state(), last + 1) is Some,
            r ==> final(self).state() == copy_until(
                string_views(src@),
                old(self).state(),
                last + 1,
            )->0,
    {
        let ghost s = string_views(src@);
        let ghost goal = copy_until(s, self.state(), last + 1);
        while self.line <= last
            invariant
                s == string_views(src@),
                goal == copy_until(s, old(self).state(), last + 1),
                copy_until(s, self.state(), last + 1) == goal,
            decreases last + 1 - self.line,
        {
            let ghost before = self.state();
            proof {
                assert(last + 1 > before.line);
                assert(copy_lines(s, before, (last + 1 - before.line) as nat) == match copy_line(
                    s,
                    before,
                ) {
                    Some(n) => copy_lines(s, n, (last + 1 - before.line - 1) as nat),
                    None => None,
                });
            }
            if !self.copy_line(src) {
                proof {
                    assert(copy_line(s, before) is None);
                    assert(copy_until(s, before, last + 1) is None);
                }
                return false;
            }
        }
        true
    }
}

} // verus!
