use vstd::prelude::*;

use crate::text::{split_at_char, split_on, str_views};

verus! {

/// Which side of a diff a loaded file is.
#[derive(Clone, Copy, Debug, PartialEq, Eq, Structural)]
pub enum FileKind {
    Original,
    Modified,
}

pub open spec fn string_views(v: Seq<String>) -> Seq<Seq<char>> {
    v.map_values(|s: String| s@)
}

/// The text ends with a newline, or is empty.
pub open spec fn text_ends_with_newline(text: Seq<char>) -> bool {
    text.len() == 0 || text.last() == '\n'
}

/// The lines of a text: the pieces between newlines, without the empty
/// piece that a final newline leaves.
pub open spec fn text_lines(text: Seq<char>) -> Seq<Seq<char>> {
    if text_ends_with_newline(text) {
        split_on(text, '\n').drop_last()
    } else {
        split_on(text, '\n')
    }
}

/// A loaded text file: its lines, numbered from 1, whether it ends with a
/// newline, and the side of the diff it stands for.
#[derive(Debug)]
pub struct PatchFile {
    lines: Vec<String>,
    ends_with_newline: bool,
    kind: FileKind,
}

impl PatchFile {
    pub closed spec fn spec_lines(&self) -> Seq<Seq<char>> {
        string_views(self.lines@)
    }

    pub closed spec fn spec_ends_with_newline(&self) -> bool {
        self.ends_with_newline
    }

    pub closed spec fn spec_kind(&self) -> FileKind {
        self.kind
    }

    pub fn new(lines: Vec<String>, ends_with_newline: bool, kind: FileKind) -> (r: Self)
        ensures
            r.spec_lines() == string_views(lines@),
            r.spec_ends_with_newline() == ends_with_newline,
            r.spec_kind() == kind,
    {
        PatchFile { lines, ends_with_newline, kind }
    }

    /// Splits a file's text into its lines.
    pub fn from_text(text: &str, kind: FileKind) -> (r: Self)
        ensures
            r.spec_lines() == text_lines(text@),
            r.spec_ends_with_newline() == text_ends_with_newline(text@),
            r.spec_kind() == kind,
    {
        let n = text.unicode_len();
        let ends_with_newline = n == 0 || text.get_char(n - 1) == '\n';
        let pieces = split_at_char(text, '\n');
        let mut count = pieces.len();
        if ends_with_newline {
            proof {
                crate::text::lemma_split_nonempty(text@, '\n');
            }
            count = count - 1;
        }
        let mut lines: Vec<String> = Vec::new();
        let mut i: usize = 0;
        while i < count
            invariant
                count <= pieces@.len(),
                i <= count,
                string_views(lines@) == str_views(pieces@).take(i as int),
            decreases count - i,
        {
            let line = pieces[i].to_owned();
            let ghost prev = lines@;
            proof {
                assert(str_views(pieces@)[i as int] == pieces@[i as int]@);
            }
            lines.push(line);
            proof {
                assert(lines@ == prev.push(line));
                assert(string_views(lines@) =~= string_views(prev).push(line@));
                assert(str_views(pieces@).take(i + 1) =~= str_views(pieces@).take(i as int).push(
                    line@,
                ));
            }
            i = i + 1;
        }
        proof {
            if ends_with_newline {
                assert(str_views(pieces@).take(count as int) =~= str_views(pieces@).drop_last());
            } else {
                assert(str_views(pieces@).take(count as int) =~= str_views(pieces@));
            }
        }
        PatchFile { lines, ends_with_newline, kind }
    }

    pub fn lines(&self) -> (r: &Vec<String>)
        ensures
            string_views(r@) == self.spec_lines(),
    {
        &self.lines
    }

    pub fn ends_with_newline(&self) -> (r: bool)
        ensures
            r == self.spec_ends_with_newline(),
    {
        self.ends_with_newline
    }

    pub fn kind(&self) -> (r: FileKind)
        ensures
            r == self.spec_kind(),
    {
        self.kind
    }
}

} // verus!
