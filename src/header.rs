use vstd::prelude::*;

verus! {

/// A unified or context file header: a marker, a space, the path, a tab and
/// the date.
pub const HEADER_PATTERN: &'static str = "^(?:\\*\\*\\*|---|\\+\\+\\+) (?P<path>[^\\t]+)\\t(?P<date>.+)$";

/// The date layout that diff writes in file headers.
pub const HEADER_DATE_FORMAT: &'static str = "%Y-%m-%d %H:%M:%S%.f %z";

/// What the group named `group` of the regular expression `pattern` captures
/// in the first match in `text`, if there is a match and the group took part.
pub uninterp spec fn regex_capture(pattern: Seq<char>, text: Seq<char>, group: Seq<char>) -> Option<Seq<char>>;

/// The seconds since the Unix epoch of the date `text` written in `format`.
pub uninterp spec fn parsed_timestamp(text: Seq<char>, format: Seq<char>) -> Option<int>;

/// Relies on `regex::Regex::new`, `Regex::captures` and `Captures::name`:
/// compiles `pattern` and returns what its group `group` captured in the
/// first match in `text`; a pattern that does not compile captures nothing.
#[verifier::external_body]
fn capture_group(pattern: &str, text: &str, group: &str) -> (r: Option<String>)
    ensures
        match r {
            Some(s) => regex_capture(pattern@, text@, group@) == Some(s@),
            None => regex_capture(pattern@, text@, group@) is None,
        },
{
    let re = regex::Regex::new(pattern).ok()?;
    let captures = re.captures(text)?;
    captures.name(group).map(|m| m.as_str().to_string())
}

/// Relies on `chrono::DateTime::parse_from_str` and `DateTime::timestamp`:
/// the date `text` read in `format`, as seconds since the Unix epoch.
#[verifier::external_body]
fn parse_timestamp(text: &str, format: &str) -> (r: Option<i64>)
    ensures
        match r {
            Some(t) => parsed_timestamp(text@, format@) == Some(t as int),
            None => parsed_timestamp(text@, format@) is None,
        },
{
    chrono::DateTime::parse_from_str(text, format).ok().map(|d| d.timestamp())
}

pub struct HeaderText {
    pub path: Seq<char>,
    pub date: Seq<char>,
}

/// The path and the date text of a header, where the header pattern finds both.
pub open spec fn header_fields(header: Seq<char>) -> Option<HeaderText> {
    match (
        regex_capture(HEADER_PATTERN@, header, "path"@),
        regex_capture(HEADER_PATTERN@, header, "date"@),
    ) {
        (Some(p), Some(d)) => Some(HeaderText { path: p, date: d }),
        _ => None,
    }
}

/// A file named by a header: its path and, where the date reads, its time.
pub struct HeaderFile {
    pub path: String,
    pub date: Option<i64>,
}

/// Reads the path and the date of a unified or context file header.
pub fn parse_header(header: &str) -> (r: Option<HeaderFile>)
    ensures
        match r {
            Some(f) => {
                &&& header_fields(header@) is Some
                &&& f.path@ == header_fields(header@)->0.path
                &&& match f.date {
                    Some(t) => parsed_timestamp(header_fields(header@)->0.date, HEADER_DATE_FORMAT@)
                        == Some(t as int),
                    None => parsed_timestamp(header_fields(header@)->0.date, HEADER_DATE_FORMAT@) is None,
                }
            },
            None => header_fields(header@) is None,
        },
{
    let path = capture_group(HEADER_PATTERN, header, "path");
    let date = capture_group(HEADER_PATTERN, header, "date");
    match (path, date) {
        (Some(path), Some(date)) => {
            let time = parse_timestamp(date.as_str(), HEADER_DATE_FORMAT);
            Some(HeaderFile { path, date: time })
        },
        _ => None,
    }
}

} // verus!
