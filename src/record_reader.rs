use vstd::prelude::*;
use vstd::string::StringSliceAdditionalSpecFns;

verus! {

/// What ends a record: one byte, or (`Null`) a newline, with blank lines
/// and surrounding whitespace skipped.
#[derive(Clone, Copy, Debug, PartialEq, Eq, Structural)]
pub enum RecordSeparator {
    Char(u8),
    Null,
}

/// The error for a separator of more than one byte.
pub const SEPARATOR_TOO_LONG: &'static str =
    "the record separator cannot contain more than one characters";

impl RecordSeparator {
    /// A separator from its text: empty gives `Null`, one byte (an ASCII
    /// character) gives that byte, more is an error.
    pub fn try_from(value: String) -> (r: Result<RecordSeparator, String>)
        ensures
            value@.len() == 0 ==> r == Ok::<RecordSeparator, String>(RecordSeparator::Null),
            value@.len() == 1 && (value@[0] as u32) < 128 ==> r == Ok::<RecordSeparator, String>(
                RecordSeparator::Char(value@[0] as u8),
            ),
            value@.len() > 1 || (value@.len() == 1 && (value@[0] as u32) >= 128) ==> (r matches Err(
                e,
            ) && e@ == SEPARATOR_TOO_LONG@),
    {
        let text = value.as_str();
        let n = text.unicode_len();
        if n == 0 {
            Ok(RecordSeparator::Null)
        } else {
            let c = text.get_char(0);
            if n == 1 && (c as u32) < 128 {
                Ok(RecordSeparator::Char(c as u8))
            } else {
                Err(String::from_str(SEPARATOR_TOO_LONG))
            }
        }
    }
}

/// The bytes that `u8::is_ascii_whitespace` accepts: space, tab, line feed,
/// form feed and carriage return.
pub open spec fn is_ascii_space(b: u8) -> bool {
    b == 32 || b == 9 || b == 10 || b == 12 || b == 13
}

/// Bytes read one for one as characters.
pub open spec fn byte_chars(bytes: Seq<u8>) -> Seq<char> {
    bytes.map_values(|b: u8| b as char)
}

/// The first position from `j` on that holds no whitespace, or the length.
pub open spec fn next_non_space(b: Seq<u8>, j: int) -> int
    decreases b.len() - j,
{
    if j < 0 || j >= b.len() {
        b.len() as int
    } else if !is_ascii_space(b[j]) {
        j
    } else {
        next_non_space(b, j + 1)
    }
}

/// The first position from `j` on that holds `c`, or the length.
pub open spec fn next_byte(b: Seq<u8>, j: int, c: u8) -> int
    decreases b.len() - j,
{
    if j < 0 || j >= b.len() {
        b.len() as int
    } else if b[j] == c {
        j
    } else {
        next_byte(b, j + 1, c)
    }
}

/// The record read from position `i` of `b`, and the position after it.
/// With a separator byte, a record runs up to the next separator, which is
/// consumed. Without one, reading resumes at the last byte consumed,
/// skips whitespace, takes the line up to its newline, then skips the
/// whitespace after it, consuming the byte that ends that run.
pub open spec fn read_record(b: Seq<u8>, i: int, separator: RecordSeparator) -> (Option<Seq<char>>, int) {
    if i >= b.len() {
        (None, i)
    } else {
        match separator {
            RecordSeparator::Char(c) => {
                let j = next_byte(b, i, c);
                (Some(byte_chars(b.subrange(i, j))), if j < b.len() { j + 1 } else { b.len() as int })
            },
            RecordSeparator::Null => {
                let text_start = next_non_space(b, if i > 0 { i - 1 } else { 0 });
                if text_start >= b.len() {
                    (None, b.len() as int)
                } else {
                    let line_end = next_byte(b, text_start, 10);
                    let record = byte_chars(b.subrange(text_start, line_end));
                    if line_end >= b.len() {
                        (Some(record), b.len() as int)
                    } else {
                        let after_space = next_non_space(b, line_end);
                        if after_space >= b.len() {
                            (Some(record), b.len() as int)
                        } else {
                            (Some(record), after_space + 1)
                        }
                    }
                }
            },
        }
    }
}

/// Relies on `String::push`: appends one character.
#[verifier::external_body]
fn push_char(s: &mut String, c: char)
    ensures
        final(s)@ == old(s)@.push(c),
{
    s.push(c);
}

fn is_space(b: u8) -> (r: bool)
    ensures
        r == is_ascii_space(b),
{
    b == 32 || b == 9 || b == 10 || b == 12 || b == 13
}

/// The bytes `from..to` as characters, one for each byte.
fn byte_string(bytes: &Vec<u8>, from: usize, to: usize) -> (r: String)
    requires
        from <= to <= bytes@.len(),
    ensures
        r@ == byte_chars(bytes@.subrange(from as int, to as int)),
{
    let mut s = String::new();
    let mut k: usize = from;
    proof {
        assert(s@ =~= byte_chars(bytes@.subrange(from as int, from as int)));
    }
    while k < to
        invariant
            from <= k <= to <= bytes@.len(),
            s@ == byte_chars(bytes@.subrange(from as int, k as int)),
        decreases to - k,
    {
        push_char(&mut s, bytes[k] as char);
        k = k + 1;
        proof {
            assert(s@ =~= byte_chars(bytes@.subrange(from as int, k as int)));
        }
    }
    s
}

/// Where the next byte of `b` from `j` on that is `c` stands.
fn find_byte(bytes: &Vec<u8>, j: usize, c: u8) -> (r: usize)
    requires
        j <= bytes@.len(),
    ensures
        r == next_byte(bytes@, j as int, c),
        j <= r <= bytes@.len(),
{
    let mut k = j;
    while k < bytes.len() && bytes[k] != c
        invariant
            j <= k <= bytes@.len(),
            next_byte(bytes@, k as int, c) == next_byte(bytes@, j as int, c),
        decreases bytes@.len() - k,
    {
        k = k + 1;
    }
    k
}

/// Where the next byte of `b` from `j` on that is no whitespace stands.
fn find_non_space(bytes: &Vec<u8>, j: usize) -> (r: usize)
    requires
        j <= bytes@.len(),
    ensures
        r == next_non_space(bytes@, j as int),
        j <= r <= bytes@.len(),
{
    let mut k = j;
    while k < bytes.len() && is_space(bytes[k])
        invariant
            j <= k <= bytes@.len(),
            next_non_space(bytes@, k as int) == next_non_space(bytes@, j as int),
        decreases bytes@.len() - k,
    {
        k = k + 1;
    }
    k
}

/// Reads records out of a text held in memory.
pub struct StringRecordReader {
    bytes: Vec<u8>,
    index: usize,
}

impl StringRecordReader {
    #[verifier::type_invariant]
    spec fn index_in_text(&self) -> bool {
        self.index <= self.bytes@.len()
    }

    pub closed spec fn spec_bytes(&self) -> Seq<u8> {
        self.bytes@
    }

    pub closed spec fn spec_index(&self) -> int {
        self.index as int
    }

    pub fn from(value: &str) -> (r: Self)
        ensures
            r.spec_bytes() == value.spec_bytes(),
            r.spec_index() == 0,
    {
        StringRecordReader { bytes: value.as_bytes_vec(), index: 0 }
    }

    /// A reader over raw bytes, which need not be UTF-8.
    pub fn from_bytes(bytes: Vec<u8>) -> (r: Self)
        ensures
            r.spec_bytes() == bytes@,
            r.spec_index() == 0,
    {
        StringRecordReader { bytes, index: 0 }
    }

    pub fn is_done(&self) -> (r: bool)
        ensures
            r == (self.spec_index() == self.spec_bytes().len()),
    {
        proof {
            use_type_invariant(self);
        }
        self.index >= self.bytes.len()
    }

    pub fn last_byte_read(&self) -> (r: Option<u8>)
        ensures
            self.spec_index() == 0 ==> r is None,
            self.spec_index() <= self.spec_bytes().len(),
            0 < self.spec_index() ==> r == Some(self.spec_bytes()[self.spec_index() - 1]),
    {
        proof {
            use_type_invariant(self);
        }
        if self.index == 0 {
            None
        } else {
            Some(self.bytes[self.index - 1])
        }
    }

    /// The next byte, consumed.
    pub fn next(&mut self) -> (r: Option<Result<u8, String>>)
        ensures
            final(self).spec_bytes() == old(self).spec_bytes(),
            old(self).spec_index() >= old(self).spec_bytes().len() ==> r is None
                && final(self).spec_index() == old(self).spec_index(),
            old(self).spec_index() < old(self).spec_bytes().len() ==> r == Some(
                Ok::<u8, String>(old(self).spec_bytes()[old(self).spec_index()]),
            ) && final(self).spec_index() == old(self).spec_index() + 1,
    {
        if self.index >= self.bytes.len() {
            None
        } else {
            let b = self.bytes[self.index];
            self.index = self.index + 1;
            Some(Ok(b))
        }
    }

    /// The next record, `None` once the text is used up.
    pub fn read_next_record(&mut self, separator: &RecordSeparator) -> (r: Result<Option<String>, String>)
        ensures
            final(self).spec_bytes() == old(self).spec_bytes(),
            final(self).spec_index() <= final(self).spec_bytes().len(),
            final(self).spec_index() == read_record(old(self).spec_bytes(), old(self).spec_index(), *separator).1,
            r matches Ok(o) && match o {
                Some(s) => read_record(old(self).spec_bytes(), old(self).spec_index(), *separator).0 == Some(s@),
                None => read_record(old(self).spec_bytes(), old(self).spec_index(), *separator).0 is None,
            },
    {
        proof {
            use_type_invariant(&*self);
        }
        let n = self.bytes.len();
        if self.index >= n {
            return Ok(None);
        }
        match separator {
            RecordSeparator::Char(sep) => {
                let start = self.index;
                let j = find_byte(&self.bytes, start, *sep);
                let record = byte_string(&self.bytes, start, j);
                self.index = if j < n {
                    j + 1
                } else {
                    n
                };
                Ok(Some(record))
            },
            RecordSeparator::Null => {
                let p = if self.index > 0 {
                    self.index - 1
                } else {
                    0
                };
                let text_start = find_non_space(&self.bytes, p);
                if text_start >= n {
                    self.index = n;
                    return Ok(None);
                }
                let line_end = find_byte(&self.bytes, text_start, 10);
                let record = byte_string(&self.bytes, text_start, line_end);
                if line_end >= n {
                    self.index = n;
                    return Ok(Some(record));
                }
                let after_space = find_non_space(&self.bytes, line_end);
                self.index = if after_space >= n {
                    n
                } else {
                    after_space + 1
                };
                Ok(Some(record))
            },
        }
    }
}

/// A source of bytes that records are read from.
pub trait RecordReader {
    fn is_done(&self) -> bool;

    fn last_byte_read(&self) -> Option<u8>;

    fn read_next_record(&mut self, separator: &RecordSeparator) -> Result<Option<String>, String>;
}

impl RecordReader for StringRecordReader {
    fn is_done(&self) -> bool {
        StringRecordReader::is_done(self)
    }

    fn last_byte_read(&self) -> Option<u8> {
        StringRecordReader::last_byte_read(self)
    }

    fn read_next_record(&mut self, separator: &RecordSeparator) -> Result<Option<String>, String> {
        StringRecordReader::read_next_record(self, separator)
    }
}

} // verus!
