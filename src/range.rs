use vstd::prelude::*;

use crate::edit_script_range_data::EditScriptHunkKind;
use crate::patch_format::PatchFormat;
use crate::text::{
    is_usize_numeral, lemma_split_nonempty, numeral_value, parse_usize, split_at_char, split_on,
    str_views,
};

verus! {

/// Why a range could not be decoded.
#[derive(Debug)]
pub enum RangeError {
    InvalidRange,
    InvalidRangeWithError(String),
}

/// `s` without one leading `+` or `-`.
pub open spec fn strip_sign(s: Seq<char>) -> Seq<char> {
    if s.len() > 0 && (s[0] == '+' || s[0] == '-') {
        s.drop_first()
    } else {
        s
    }
}

pub open spec fn all_numerals(parts: Seq<Seq<char>>) -> bool {
    forall|k: int| 0 <= k < parts.len() ==> #[trigger] is_usize_numeral(parts[k])
}

/// One or two comma-separated numerals.
pub open spec fn is_number_pair(parts: Seq<Seq<char>>) -> bool {
    (parts.len() == 1 || parts.len() == 2) && all_numerals(parts)
}

/// The numbers of a unified range `"N,M"` after an optional `+` or `-`: the start and
/// the count, which is 0 when absent.
pub open spec fn unified_numbers(s: Seq<char>) -> Option<(int, int)> {
    let p = split_on(strip_sign(s), ',');
    if is_number_pair(p) {
        Some(
            (
                numeral_value(p[0]),
                if p.len() == 2 {
                    numeral_value(p[1])
                } else {
                    0
                },
            ),
        )
    } else {
        None
    }
}

/// The numbers of a context header line of exactly three space-separated
/// words whose middle one is `"N,M"` or `"N"` (then the end is `N` too).
pub open spec fn context_numbers(line: Seq<char>) -> Option<(int, int)> {
    let words = split_on(line, ' ');
    if words.len() == 3 && is_number_pair(split_on(words[1], ',')) {
        let p = split_on(words[1], ',');
        if numeral_value(p[0]) <= numeral_value(p.last()) {
            Some((numeral_value(p[0]), numeral_value(p.last())))
        } else {
            None
        }
    } else {
        None
    }
}

/// A character of Unicode's `White_Space` property, the whitespace that
/// `str::trim` removes.
pub open spec fn is_white_space(c: char) -> bool {
    ||| '\u{9}' <= c <= '\u{d}'
    ||| c == ' '
    ||| c == '\u{85}'
    ||| c == '\u{a0}'
    ||| c == '\u{1680}'
    ||| '\u{2000}' <= c <= '\u{200a}'
    ||| c == '\u{2028}'
    ||| c == '\u{2029}'
    ||| c == '\u{202f}'
    ||| c == '\u{205f}'
    ||| c == '\u{3000}'
}

pub open spec fn trim_start(s: Seq<char>) -> Seq<char>
    decreases s.len(),
{
    if s.len() > 0 && is_white_space(s[0]) {
        trim_start(s.drop_first())
    } else {
        s
    }
}

pub open spec fn trim_end(s: Seq<char>) -> Seq<char>
    decreases s.len(),
{
    if s.len() > 0 && is_white_space(s.last()) {
        trim_end(s.drop_last())
    } else {
        s
    }
}

/// `s` with leading and trailing whitespace removed.
pub open spec fn trimmed(s: Seq<char>) -> Seq<char> {
    trim_end(trim_start(s))
}

/// Relies on `str::trim`: leading and trailing `White_Space` characters
/// are removed.
#[verifier::external_body]
fn trim_text(s: &str) -> (r: &str)
    ensures
        r@ == trimmed(s@),
{
    s.trim()
}

/// The text of an edit-script header line before its letter: the trimmed
/// line without its last character.
pub open spec fn edit_script_body(line: Seq<char>) -> Seq<char> {
    let t = trimmed(line);
    if t.len() == 0 {
        t
    } else {
        t.drop_last()
    }
}

/// The numerals of an edit-script header line: its body split at commas.
pub open spec fn edit_script_parts(line: Seq<char>) -> Seq<Seq<char>> {
    split_on(edit_script_body(line), ',')
}

/// The kind that the last character of a trimmed edit-script header selects.
pub open spec fn edit_script_kind_of(line: Seq<char>) -> Option<EditScriptHunkKind> {
    let t = trimmed(line);
    if t.len() == 0 {
        None
    } else if t.last() == 'a' {
        Some(EditScriptHunkKind::Insert)
    } else if t.last() == 'c' {
        Some(EditScriptHunkKind::Change)
    } else if t.last() == 'd' {
        Some(EditScriptHunkKind::Delete)
    } else {
        None
    }
}

/// Parses every piece; `None` as soon as one is not a numeral.
fn parse_all(parts: &Vec<&str>) -> (r: Option<Vec<usize>>)
    ensures
        r is Some <==> all_numerals(str_views(parts@)),
        r matches Some(v) ==> v@.len() == parts@.len() && forall|k: int|
            0 <= k < v@.len() ==> v@[k] as int == numeral_value(#[trigger] parts@[k]@),
{
    let mut numbers: Vec<usize> = Vec::new();
    let mut i: usize = 0;
    while i < parts.len()
        invariant
            i <= parts@.len(),
            numbers@.len() == i,
            forall|k: int| 0 <= k < i ==> is_usize_numeral(#[trigger] parts@[k]@),
            forall|k: int| 0 <= k < i ==> numbers@[k] as int == numeral_value(#[trigger] parts@[k]@),
        decreases parts@.len() - i,
    {
        match parse_usize(parts[i]) {
            Ok(v) => {
                numbers.push(v);
            },
            Err(_) => {
                proof {
                    assert(str_views(parts@)[i as int] == parts@[i as int]@);
                }
                return None;
            },
        }
        i = i + 1;
    }
    proof {
        assert forall|k: int| 0 <= k < str_views(parts@).len() implies is_usize_numeral(
            #[trigger] str_views(parts@)[k],
        ) by {
            assert(str_views(parts@)[k] == parts@[k]@);
        }
    }
    Some(numbers)
}

/// An interval of lines. For the unified dialect the stored end is a count
/// of lines, for the other dialects it is the last line itself.
#[derive(Clone, Copy, Debug)]
pub struct Range {
    start: usize,
    end: usize,
    kind: PatchFormat,
}

impl Range {
    #[verifier::type_invariant]
    spec fn ordered(self) -> bool {
        self.kind != PatchFormat::Unified ==> self.start <= self.end
    }

    pub closed spec fn spec_start(self) -> int {
        self.start as int
    }

    /// The stored end: a line number, or a count for the unified dialect.
    pub closed spec fn spec_stored_end(self) -> int {
        self.end as int
    }

    pub closed spec fn spec_kind(self) -> PatchFormat {
        self.kind
    }

    /// The last line of the range, as `end()` computes it.
    pub open spec fn spec_end(self) -> int {
        if self.spec_kind() == PatchFormat::Unified {
            self.spec_start() + self.spec_stored_end()
        } else {
            self.spec_stored_end()
        }
    }

    /// A range whose end can be computed without overflow.
    pub open spec fn has_end(self) -> bool {
        &&& self.spec_kind() != PatchFormat::NoFormat
        &&& self.spec_end() <= usize::MAX
    }

    pub fn new(start: usize, end: usize, kind: PatchFormat) -> (r: Range)
        requires
            kind != PatchFormat::Unified ==> start <= end,
        ensures
            r.spec_start() == start,
            r.spec_stored_end() == end,
            r.spec_kind() == kind,
    {
        Range { start, end, kind }
    }

    /// Decodes a unified range `"N,M"` or `"N"`, where `+` and `-` are ignored;
    /// `M` is a count and defaults to 0.
    pub fn try_from_unified(unified_range: &str) -> (r: Result<Range, RangeError>)
        ensures
            r is Ok <==> unified_numbers(unified_range@) is Some,
            r matches Ok(range) ==> {
                &&& range.spec_kind() == PatchFormat::Unified
                &&& unified_numbers(unified_range@) == Some((range.spec_start(), range.spec_stored_end()))
            },
            r matches Err(e) ==> e is InvalidRange,
    {
        let n = unified_range.unicode_len();
        let signed = n > 0 && {
            let c = unified_range.get_char(0);
            c == '+' || c == '-'
        };
        let body = if signed {
            unified_range.substring_char(1, n)
        } else {
            unified_range
        };
        proof {
            if signed {
                assert(body@ =~= unified_range@.drop_first());
            }
        }
        let parts = split_at_char(body, ',');
        match parse_all(&parts) {
            None => Err(RangeError::InvalidRange),
            Some(numbers) => {
                if numbers.len() == 1 {
                    Ok(Range::new(numbers[0], 0, PatchFormat::Unified))
                } else if numbers.len() == 2 {
                    Ok(Range::new(numbers[0], numbers[1], PatchFormat::Unified))
                } else {
                    Err(RangeError::InvalidRange)
                }
            },
        }
    }

    /// Decodes a context header line such as `"*** 3,5 ****"`: exactly three
    /// words separated by single spaces, the middle one `"N,M"` or `"N"`.
    pub fn try_from_context(line: &str) -> (r: Result<Range, RangeError>)
        ensures
            r is Ok <==> context_numbers(line@) is Some,
            r matches Ok(range) ==> {
                &&& range.spec_kind() == PatchFormat::Context
                &&& context_numbers(line@) == Some((range.spec_start(), range.spec_stored_end()))
            },
            r matches Err(e) ==> e is InvalidRange,
    {
        let words = split_at_char(line, ' ');
        if words.len() != 3 {
            return Err(RangeError::InvalidRange);
        }
        let parts = split_at_char(words[1], ',');
        proof {
            assert(str_views(words@)[1] == words@[1]@);
        }
        if parts.len() != 1 && parts.len() != 2 {
            return Err(RangeError::InvalidRange);
        }
        match parse_all(&parts) {
            None => Err(RangeError::InvalidRange),
            Some(numbers) => {
                let first = numbers[0];
                let last = numbers[numbers.len() - 1];
                if first <= last {
                    Ok(Range::new(first, last, PatchFormat::Context))
                } else {
                    Err(RangeError::InvalidRange)
                }
            },
        }
    }

    /// The kind selected by the last character of the trimmed header line:
    /// `a`, `c` or `d`; `None` for any other line.
    pub fn edit_script_range_kind(line: &str) -> (r: Option<EditScriptHunkKind>)
        ensures
            r == edit_script_kind_of(line@),
    {
        let t = trim_text(line);
        let n = t.unicode_len();
        if n == 0 {
            return None;
        }
        let c = t.get_char(n - 1);
        if c == 'a' {
            Some(EditScriptHunkKind::Insert)
        } else if c == 'c' {
            Some(EditScriptHunkKind::Change)
        } else if c == 'd' {
            Some(EditScriptHunkKind::Delete)
        } else {
            None
        }
    }

    /// Decodes an edit-script header line `"N,Mx"` or `"Nx"`, where the
    /// final letter `x` is left out of the numbers. Text that is no numeral
    /// (an empty line included) gives `InvalidRangeWithError`; more than two
    /// numbers, or a start past the end, give `InvalidRange`.
    pub fn try_from_edit_script(line: &str) -> (r: Result<Range, RangeError>)
        ensures
            r is Ok <==> {
                &&& is_number_pair(edit_script_parts(line@))
                &&& numeral_value(edit_script_parts(line@)[0]) <= numeral_value(
                    edit_script_parts(line@).last(),
                )
            },
            r matches Ok(range) ==> {
                &&& range.spec_kind() == PatchFormat::EditScript
                &&& range.spec_start() == numeral_value(edit_script_parts(line@)[0])
                &&& range.spec_stored_end() == numeral_value(edit_script_parts(line@).last())
            },
            r matches Err(e) ==> (e is InvalidRangeWithError <==> ((edit_script_parts(line@).len()
                == 1 || edit_script_parts(line@).len() == 2) && !all_numerals(
                edit_script_parts(line@),
            ))),
    {
        let t = trim_text(line);
        let tn = t.unicode_len();
        let cut = if tn == 0 {
            0
        } else {
            tn - 1
        };
        let body = t.substring_char(0, cut);
        proof {
            if tn == 0 {
                assert(body@ =~= t@);
            } else {
                assert(body@ =~= t@.drop_last());
            }
        }
        let parts = split_at_char(body, ',');
        proof {
            lemma_split_nonempty(body@, ',');
            assert(str_views(parts@).len() == parts@.len());
            assert(str_views(parts@)[0] == parts@[0]@);
            if parts@.len() == 2 {
                assert(str_views(parts@)[1] == parts@[1]@);
            }
        }
        if parts.len() == 1 {
            match parse_usize(parts[0]) {
                Ok(number) => Ok(Range::new(number, number, PatchFormat::EditScript)),
                Err(message) => {
                    proof {
                        assert(!is_usize_numeral(str_views(parts@)[0]));
                    }
                    Err(RangeError::InvalidRangeWithError(message))
                },
            }
        } else if parts.len() == 2 {
            let number1 = parse_usize(parts[0]);
            let number2 = parse_usize(parts[1]);
            match (number1, number2) {
                (Ok(a), Ok(b)) => {
                    proof {
                        assert(all_numerals(str_views(parts@)));
                    }
                    if a <= b {
                        Ok(Range::new(a, b, PatchFormat::EditScript))
                    } else {
                        Err(RangeError::InvalidRange)
                    }
                },
                (first, second) => {
                    let mut error_data = String::new();
                    if let Err(message) = first {
                        error_data.append(message.as_str());
                        error_data.append("\n");
                    }
                    if let Err(message) = second {
                        error_data.append(message.as_str());
                    }
                    Err(RangeError::InvalidRangeWithError(error_data))
                },
            }
        } else {
            Err(RangeError::InvalidRange)
        }
    }

    pub fn start(&self) -> (r: usize)
        ensures
            r == self.spec_start(),
            self.spec_kind() != PatchFormat::Unified ==> self.spec_start() <= self.spec_stored_end(),
    {
        proof {
            use_type_invariant(self);
        }
        self.start
    }

    /// The end of the range, or `None` where `end()` could not compute it.
    pub fn checked_end(&self) -> (r: Option<usize>)
        ensures
            r is Some <==> self.has_end(),
            r matches Some(e) ==> e == self.spec_end() && self.spec_start() <= e,
    {
        proof {
            use_type_invariant(self);
        }
        match self.kind {
            PatchFormat::NoFormat => None,
            PatchFormat::Unified => if self.end <= usize::MAX - self.start {
                Some(self.start + self.end)
            } else {
                None
            },
            _ => Some(self.end),
        }
    }

    pub fn end(&self) -> (r: usize)
        requires
            self.has_end(),
        ensures
            r == self.spec_end(),
            self.spec_kind() == PatchFormat::Unified ==> r == self.spec_start() + self.spec_stored_end(),
            self.spec_kind() != PatchFormat::Unified ==> r == self.spec_stored_end(),
            self.spec_start() <= r,
            self.spec_kind() != PatchFormat::Unified ==> self.spec_start() <= self.spec_stored_end(),
    {
        proof {
            use_type_invariant(self);
        }
        match self.kind {
            PatchFormat::Unified => self.start + self.end,
            _ => self.end,
        }
    }
}

} // verus!
