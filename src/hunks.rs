use vstd::prelude::*;

use crate::apply_model::Mode;
use crate::engine::{applied_to, apply_mode};
use crate::header::{
    header_fields, parse_header, parsed_timestamp, HeaderText, HEADER_DATE_FORMAT,
};
use crate::hunk::{appended, Hunk};
use crate::patch_error::{PatchError, PatchResult};
use crate::patch_file::{string_views, FileKind, PatchFile};
use crate::patch_format::PatchFormat;
use crate::patch_line::PatchLine;

verus! {

/// The result of an application: the lines to write, each followed by a
/// newline, and whether one more newline ends the output.
#[derive(Debug)]
pub struct PatchOutput {
    lines: Vec<String>,
    final_newline: bool,
}

/// The text that an output stands for: the lines separated by newlines,
/// the last one followed by a newline where `final_newline` holds.
pub open spec fn render(lines: Seq<Seq<char>>, final_newline: bool) -> Seq<char>
    decreases lines.len(),
{
    if lines.len() == 0 {
        Seq::empty()
    } else if lines.len() == 1 {
        if final_newline {
            lines[0] + seq!['\n']
        } else {
            lines[0]
        }
    } else {
        lines[0] + seq!['\n'] + render(lines.drop_first(), final_newline)
    }
}

impl PatchOutput {
    pub closed spec fn spec_lines(&self) -> Seq<Seq<char>> {
        string_views(self.lines@)
    }

    pub closed spec fn spec_final_newline(&self) -> bool {
        self.final_newline
    }

    pub fn new(lines: Vec<String>, final_newline: bool) -> (r: Self)
        ensures
            r.spec_lines() == string_views(lines@),
            r.spec_final_newline() == final_newline,
    {
        PatchOutput { lines, final_newline }
    }

    pub fn lines(&self) -> (r: &Vec<String>)
        ensures
            string_views(r@) == self.spec_lines(),
    {
        &self.lines
    }

    pub fn final_newline(&self) -> (r: bool)
        ensures
            r == self.spec_final_newline(),
    {
        self.final_newline
    }

    /// The whole output as one text.
    pub fn to_text(&self) -> (r: String)
        ensures
            r@ == render(self.spec_lines(), self.spec_final_newline()),
    {
        let ghost all = self.spec_lines();
        let n = self.lines.len();
        if n == 0 {
            return String::new();
        }
        let mut i: usize = n - 1;
        let mut tail = self.lines[i].clone();
        if self.final_newline {
            tail.append("\n");
        }
        proof {
            reveal_strlit("\n");
            assert(all[i as int] == self.lines@[i as int]@);
            assert(all.skip(i as int) =~= seq![all[i as int]]);
            assert(tail@ =~= render(all.skip(i as int), self.final_newline));
        }
        while i > 0
            invariant
                all == self.spec_lines(),
                i < self.lines@.len(),
                all.len() == self.lines@.len(),
                tail@ == render(all.skip(i as int), self.final_newline),
            decreases i,
        {
            i = i - 1;
            let mut piece = self.lines[i].clone();
            piece.append("\n");
            piece.append(tail.as_str());
            proof {
                reveal_strlit("\n");
                assert(all[i as int] == self.lines@[i as int]@);
                assert(all.skip(i as int).drop_first() =~= all.skip(i + 1));
                assert(all.skip(i as int).len() >= 2);
                assert(piece@ =~= all[i as int] + seq!['\n'] + render(
                    all.skip(i + 1),
                    self.final_newline,
                ));
            }
            tail = piece;
        }
        proof {
            assert(all.skip(0) =~= all);
        }
        tail
    }
}

/// Options of a patch run that the engine reads.
#[derive(Debug, Clone)]
pub struct PatchOptions {
    pub reverse: bool,
    pub force: bool,
    pub backup: bool,
    pub file: Option<String>,
    pub output_file: Option<String>,
}

/// The hunks of one patch, all of one dialect, with the headers that name
/// the files of a unified or context patch.
#[derive(Debug)]
pub struct Hunks<'a> {
    kind: PatchFormat,
    data: Vec<Hunk<'a>>,
    file1_header: Option<&'a str>,
    file1_date: Option<i64>,
    file1_path: Option<String>,
    file2_header: Option<&'a str>,
    file2_date: Option<i64>,
    file2_path: Option<String>,
    options: &'a PatchOptions,
}

impl<'a> Hunks<'a> {
    pub closed spec fn spec_kind(&self) -> PatchFormat {
        self.kind
    }

    pub closed spec fn spec_data(&self) -> Seq<Hunk<'a>> {
        self.data@
    }

    pub closed spec fn spec_options(&self) -> PatchOptions {
        *self.options
    }

    pub closed spec fn spec_f1_header(&self) -> Option<&'a str> {
        self.file1_header
    }

    pub closed spec fn spec_f2_header(&self) -> Option<&'a str> {
        self.file2_header
    }

    /// Every hunk is fit to be applied in this collection's dialect.
    pub open spec fn spec_well_formed(&self) -> bool {
        forall|i: int|
            0 <= i < self.spec_data().len() ==> #[trigger] hunk_well_formed(
                self.spec_data()[i],
                self.spec_kind(),
            )
    }

    /// The path read from the first header.
    pub closed spec fn spec_f1_path(&self) -> Option<String> {
        self.file1_path
    }

    /// The time read from the first header.
    pub closed spec fn spec_f1_date(&self) -> Option<i64> {
        self.file1_date
    }

    /// The path read from the second header.
    pub closed spec fn spec_f2_path(&self) -> Option<String> {
        self.file2_path
    }

    /// The time read from the second header.
    pub closed spec fn spec_f2_date(&self) -> Option<i64> {
        self.file2_date
    }

    pub fn new(kind: PatchFormat, options: &'a PatchOptions) -> (r: Self)
        requires
            kind != PatchFormat::NoFormat,
        ensures
            r.spec_kind() == kind,
            r.spec_data() == Seq::<Hunk<'a>>::empty(),
            r.spec_options() == *options,
            r.spec_f1_header() is None,
            r.spec_f2_header() is None,
    {
        Self {
            kind,
            data: Vec::new(),
            file1_header: None,
            file1_date: None,
            file1_path: None,
            file2_header: None,
            file2_date: None,
            file2_path: None,
            options,
        }
    }

    pub fn set_f1_header(&mut self, header: &'a str)
        ensures
            final(self).spec_f1_header() == Some(header),
            final(self).spec_f2_header() == old(self).spec_f2_header(),
            final(self).spec_kind() == old(self).spec_kind(),
            final(self).spec_data() == old(self).spec_data(),
            final(self).spec_options() == old(self).spec_options(),
    {
        self.file1_header = Some(header);
    }

    pub fn set_f2_header(&mut self, header: &'a str)
        ensures
            final(self).spec_f2_header() == Some(header),
            final(self).spec_f1_header() == old(self).spec_f1_header(),
            final(self).spec_kind() == old(self).spec_kind(),
            final(self).spec_data() == old(self).spec_data(),
            final(self).spec_options() == old(self).spec_options(),
    {
        self.file2_header = Some(header);
    }

    /// Whether every hunk is fit to be applied: of the collection's dialect,
    /// holding only its lines, and with both ranges for a context hunk.
    pub fn is_well_formed(&self) -> (r: bool)
        ensures
            r == self.spec_well_formed(),
    {
        let mut i: usize = 0;
        while i < self.data.len()
            invariant
                i <= self.data@.len(),
                forall|k: int| 0 <= k < i ==> #[trigger] hunk_well_formed(self.data@[k], self.kind),
            decreases self.data@.len() - i,
        {
            if !hunk_is_well_formed(&self.data[i], self.kind) {
                proof {
                    assert(!hunk_well_formed(self.spec_data()[i as int], self.spec_kind()));
                }
                return false;
            }
            i = i + 1;
        }
        true
    }

    pub fn file1_path(&self) -> (r: &Option<String>)
        ensures
            *r == self.spec_f1_path(),
    {
        &self.file1_path
    }

    pub fn file1_date(&self) -> (r: &Option<i64>)
        ensures
            *r == self.spec_f1_date(),
    {
        &self.file1_date
    }

    pub fn file2_path(&self) -> (r: &Option<String>)
        ensures
            *r == self.spec_f2_path(),
    {
        &self.file2_path
    }

    pub fn file2_date(&self) -> (r: &Option<i64>)
        ensures
            *r == self.spec_f2_date(),
    {
        &self.file2_date
    }

    pub fn has_no_hunks(&self) -> (r: bool)
        ensures
            r == (self.spec_data().len() == 0),
    {
        self.data.len() == 0
    }

    /// Appends a hunk, which must be of the collection's dialect.
    pub fn add_hunk(&mut self, hunk: Hunk<'a>)
        requires
            hunk.spec_kind() == old(self).spec_kind(),
        ensures
            final(self).spec_data() == old(self).spec_data().push(hunk),
            final(self).spec_kind() == old(self).spec_kind(),
            final(self).spec_options() == old(self).spec_options(),
            final(self).spec_f1_header() == old(self).spec_f1_header(),
            final(self).spec_f2_header() == old(self).spec_f2_header(),
    {
        self.data.push(hunk);
    }

    /// Appends a line to the last hunk; the line must belong to the
    /// collection's dialect, which the last hunk shares.
    pub fn add_patch_line(&mut self, patch_line: PatchLine<'a>)
        requires
            old(self).spec_data().len() > 0,
            old(self).spec_data().last().spec_kind() == old(self).spec_kind(),
            patch_line.spec_belongs_to(old(self).spec_kind()),
        ensures
            final(self).spec_data().len() == old(self).spec_data().len(),
            final(self).spec_data().drop_last() == old(self).spec_data().drop_last(),
            appended(old(self).spec_data().last(), final(self).spec_data().last(), patch_line),
            final(self).spec_data().last().spec_kind() == old(self).spec_kind(),
            final(self).spec_kind() == old(self).spec_kind(),
            final(self).spec_options() == old(self).spec_options(),
            final(self).spec_f1_header() == old(self).spec_f1_header(),
            final(self).spec_f2_header() == old(self).spec_f2_header(),
    {
        let mut last = self.data.pop().unwrap();
        last.add_patch_line(patch_line);
        self.data.push(last);
        proof {
            assert(self.data@.drop_last() =~= old(self).data@.drop_last());
        }
    }

    /// The side and direction in which the hunks are applied; an edit script
    /// cannot be applied in reverse.
    pub fn direction(&self) -> (r: PatchResult<Mode>)
        ensures
            match r {
                Ok(m) => mode_of(self.spec_kind(), self.spec_options().reverse) == Some(m),
                Err(e) => {
                    &&& mode_of(self.spec_kind(), self.spec_options().reverse) is None
                    &&& (self.spec_kind() == PatchFormat::EditScript && self.spec_options().reverse)
                        ==> e == PatchError::Error(UNSUPPORTED_REVERSE)
                },
            },
    {
        match (self.kind, self.options.reverse) {
            (PatchFormat::Normal, false) => Ok(Mode::NormalForward),
            (PatchFormat::Normal, true) => Ok(Mode::NormalReverse),
            (PatchFormat::Unified, false) => Ok(Mode::UnifiedForward),
            (PatchFormat::Unified, true) => Ok(Mode::UnifiedReverse),
            (PatchFormat::Context, false) => Ok(Mode::ContextForward),
            (PatchFormat::Context, true) => Ok(Mode::ContextReverse),
            (PatchFormat::EditScript, false) => Ok(Mode::EditScriptForward),
            (PatchFormat::EditScript, true) => Err(
                PatchError::Error(UNSUPPORTED_REVERSE),
            ),
            _ => Err(PatchError::Error("PatchFormat should be valid!")),
        }
    }

    /// Normal hunks, ordered by the start of their right range, applied to
    /// the original file.
    pub fn apply_normal(&self, file: &PatchFile) -> (r: PatchResult<PatchOutput>)
        requires
            self.spec_well_formed(),
        ensures
            outcome(r, applied_to(Mode::NormalForward, self.spec_data(), file)),
    {
        apply_mode(Mode::NormalForward, &self.data, file)
    }

    /// Normal hunks, ordered by the start of their left range, applied in
    /// reverse to the modified file.
    pub fn apply_normal_reverse(&self, file: &PatchFile) -> (r: PatchResult<PatchOutput>)
        requires
            self.spec_well_formed(),
        ensures
            outcome(r, applied_to(Mode::NormalReverse, self.spec_data(), file)),
    {
        apply_mode(Mode::NormalReverse, &self.data, file)
    }

    /// Unified hunks, ordered by the start of their first range, applied to
    /// the original file.
    pub fn apply_unified(&self, file: &PatchFile) -> (r: PatchResult<PatchOutput>)
        requires
            self.spec_well_formed(),
        ensures
            outcome(r, applied_to(Mode::UnifiedForward, self.spec_data(), file)),
    {
        apply_mode(Mode::UnifiedForward, &self.data, file)
    }

    /// Unified hunks, ordered by the end of their second range, applied in
    /// reverse to the modified file.
    pub fn apply_unified_reverse(&self, file: &PatchFile) -> (r: PatchResult<PatchOutput>)
        requires
            self.spec_well_formed(),
        ensures
            outcome(r, applied_to(Mode::UnifiedReverse, self.spec_data(), file)),
    {
        apply_mode(Mode::UnifiedReverse, &self.data, file)
    }

    /// Context hunks, ordered by the start of their first range, applied to
    /// the original file.
    pub fn apply_context(&self, file: &PatchFile) -> (r: PatchResult<PatchOutput>)
        requires
            self.spec_well_formed(),
        ensures
            outcome(r, applied_to(Mode::ContextForward, self.spec_data(), file)),
    {
        apply_mode(Mode::ContextForward, &self.data, file)
    }

    /// Context hunks, ordered by the start of their first range, applied in
    /// reverse to the modified file.
    pub fn apply_context_reverse(&self, file: &PatchFile) -> (r: PatchResult<PatchOutput>)
        requires
            self.spec_well_formed(),
        ensures
            outcome(r, applied_to(Mode::ContextReverse, self.spec_data(), file)),
    {
        apply_mode(Mode::ContextReverse, &self.data, file)
    }

    /// Edit-script hunks, ordered by the end of their range, applied to the
    /// original file; the source lines after the last hunk are copied too.
    pub fn apply_edit_script(&self, file: &PatchFile) -> (r: PatchResult<PatchOutput>)
        requires
            self.spec_well_formed(),
        ensures
            outcome(r, applied_to(Mode::EditScriptForward, self.spec_data(), file)),
    {
        apply_mode(Mode::EditScriptForward, &self.data, file)
    }

    /// Whether a backup of the destination is taken: not unless asked for,
    /// and an error where the destination is not a regular file.
    pub fn handle_backup(&self, path_is_file: bool) -> (r: PatchResult<bool>)
        ensures
            !self.spec_options().backup ==> r == Ok::<bool, PatchError>(false),
            self.spec_options().backup && !path_is_file ==> r == Err::<bool, PatchError>(
                PatchError::Error("Path to backup is not a file"),
            ),
            self.spec_options().backup && path_is_file ==> r == Ok::<bool, PatchError>(true),
    {
        if !self.options.backup {
            return Ok(false);
        }
        if !path_is_file {
            Err(PatchError::Error("Path to backup is not a file"))
        } else {
            Ok(true)
        }
    }

    /// The files of a normal or edit-script patch come from the options:
    /// the file argument is read; the output file is written where one is
    /// named, else the file argument is rewritten.
    pub fn prepare_normal_ed(&self) -> (r: PatchResult<ApplyPlan>)
        ensures
            normal_ed_planned(self.spec_options(), r),
    {
        let kind = if self.options.reverse {
            FileKind::Modified
        } else {
            FileKind::Original
        };
        let output = match &self.options.output_file {
            Some(q) => q.clone(),
            None => match &self.options.file {
                Some(p) => p.clone(),
                None => return Err(PatchError::Error(NO_DESTINATION)),
            },
        };
        let source = match &self.options.file {
            Some(p) => Some(p.clone()),
            None => None,
        };
        let backup = if self.options.backup {
            match &source {
                Some(p) => Some(p.clone()),
                None => Some(output.clone()),
            }
        } else {
            None
        };
        Ok(ApplyPlan { source, source_kind: kind, output, backup })
    }

    /// The files of a unified or context patch come from its two headers:
    /// the second one's file when reversed, the first one's otherwise. That
    /// file is read, backed up where asked, and rewritten, unless an output
    /// file is named.
    pub fn prepare_context_unified(&mut self) -> (r: PatchResult<ApplyPlan>)
        ensures
            final(self).spec_kind() == old(self).spec_kind(),
            final(self).spec_data() == old(self).spec_data(),
            final(self).spec_options() == old(self).spec_options(),
            final(self).spec_f1_header() == old(self).spec_f1_header(),
            final(self).spec_f2_header() == old(self).spec_f2_header(),
            headers_planned(
                old(self).spec_options(),
                old(self).spec_f1_header(),
                old(self).spec_f2_header(),
                r,
            ),
            recorded(
                old(self).spec_f1_header(),
                final(self).spec_f1_path(),
                final(self).spec_f1_date(),
                old(self).spec_f1_path(),
                old(self).spec_f1_date(),
            ),
            recorded(
                old(self).spec_f2_header(),
                final(self).spec_f2_path(),
                final(self).spec_f2_date(),
                old(self).spec_f2_path(),
                old(self).spec_f2_date(),
            ),
    {
        let f1 = match self.file1_header {
            Some(h) => parse_header(h),
            None => None,
        };
        let f2 = match self.file2_header {
            Some(h) => parse_header(h),
            None => None,
        };
        let mut path1: Option<String> = None;
        let mut path2: Option<String> = None;
        if let Some(f) = f1 {
            self.file1_path = Some(f.path.clone());
            self.file1_date = f.date;
            path1 = Some(f.path);
        }
        if let Some(f) = f2 {
            self.file2_path = Some(f.path.clone());
            self.file2_date = f.date;
            path2 = Some(f.path);
        }
        let reverse = self.options.reverse;
        let path = match choose_destination(reverse, path1, path2) {
            Ok(p) => p,
            Err(e) => return Err(e),
        };
        let backup = if self.options.backup {
            Some(path.clone())
        } else {
            None
        };
        let output = match &self.options.output_file {
            Some(q) => q.clone(),
            None => path.clone(),
        };
        Ok(
            ApplyPlan {
                source: Some(path),
                source_kind: if reverse {
                    FileKind::Modified
                } else {
                    FileKind::Original
                },
                output,
                backup,
            },
        )
    }

    /// Decides which files an application reads and writes.
    pub fn prepare_to_apply(&mut self) -> (r: PatchResult<ApplyPlan>)
        ensures
            if old(self).spec_kind() == PatchFormat::Unified || old(self).spec_kind()
                == PatchFormat::Context {
                headers_planned(
                    old(self).spec_options(),
                    old(self).spec_f1_header(),
                    old(self).spec_f2_header(),
                    r,
                )
            } else {
                normal_ed_planned(old(self).spec_options(), r)
            },
            final(self).spec_data() == old(self).spec_data(),
            final(self).spec_kind() == old(self).spec_kind(),
            final(self).spec_options() == old(self).spec_options(),
    {
        if self.kind == PatchFormat::Unified || self.kind == PatchFormat::Context {
            self.prepare_context_unified()
        } else {
            self.prepare_normal_ed()
        }
    }
}

impl<'a> Apply for Hunks<'a> {
    open spec fn well_formed(&self) -> bool {
        self.spec_well_formed()
    }

    open spec fn refusal(&self) -> Option<PatchError> {
        if self.spec_kind() == PatchFormat::EditScript && self.spec_options().reverse {
            Some(PatchError::Error(UNSUPPORTED_REVERSE))
        } else {
            None
        }
    }

    open spec fn applied(&self, file: &PatchFile) -> Option<(Seq<Seq<char>>, bool)> {
        match mode_of(self.spec_kind(), self.spec_options().reverse) {
            Some(m) => applied_to(m, self.spec_data(), file),
            None => None,
        }
    }

    fn apply(&self, file: &PatchFile) -> (r: PatchResult<PatchOutput>) {
        let mode = match self.direction() {
            Ok(m) => m,
            Err(e) => return Err(e),
        };
        match mode {
            Mode::NormalForward => self.apply_normal(file),
            Mode::NormalReverse => self.apply_normal_reverse(file),
            Mode::UnifiedForward => self.apply_unified(file),
            Mode::UnifiedReverse => self.apply_unified_reverse(file),
            Mode::ContextForward => self.apply_context(file),
            Mode::ContextReverse => self.apply_context_reverse(file),
            Mode::EditScriptForward => self.apply_edit_script(file),
        }
    }
}

/// The path and date text of a header that was set and reads.
pub open spec fn header_of(header: Option<&str>) -> Option<HeaderText> {
    match header {
        Some(h) => header_fields(h@),
        None => None,
    }
}

/// The path that the chosen header names: the second when reversed, the
/// first otherwise.
pub open spec fn destination(
    reverse: bool,
    f1: Option<HeaderText>,
    f2: Option<HeaderText>,
) -> Option<Seq<char>> {
    if reverse {
        match f2 {
            Some(h) => Some(h.path),
            None => None,
        }
    } else {
        match f1 {
            Some(h) => Some(h.path),
            None => None,
        }
    }
}

/// Picks the destination among the paths read from the two headers.
pub fn choose_destination(reverse: bool, path1: Option<String>, path2: Option<String>) -> (r:
    PatchResult<String>)
    ensures
        match (if reverse { path2 } else { path1 }) {
            Some(p) => r matches Ok(s) && s@ == p@,
            None => r == Err::<String, PatchError>(PatchError::Error(NO_DESTINATION)),
        },
{
    let chosen = if reverse {
        path2
    } else {
        path1
    };
    match chosen {
        Some(p) => Ok(p),
        None => Err(PatchError::Error(NO_DESTINATION)),
    }
}

/// The name of the backup copy of a file: the name with `.orig` appended.
pub fn backup_file_name(file_name: &str) -> (r: String)
    ensures
        r@ == file_name@ + ".orig"@,
{
    let mut name = file_name.to_owned();
    name.append(".orig");
    name
}

/// Applying a collection of hunks to a loaded file.
pub trait Apply {
    /// Every hunk is fit to be applied.
    spec fn well_formed(&self) -> bool;

    /// The lines written and the final-newline decision, or `None` where
    /// application fails.
    spec fn applied(&self, file: &PatchFile) -> Option<(Seq<Seq<char>>, bool)>;

    /// The error with which an unsupported application is refused, if it is one.
    spec fn refusal(&self) -> Option<PatchError>;

    fn apply(&self, file: &PatchFile) -> (r: PatchResult<PatchOutput>)
        requires
            self.well_formed(),
        ensures
            outcome(r, self.applied(file)),
            self.refusal() matches Some(e) ==> r == Err::<PatchOutput, PatchError>(e),
    ;
}

/// An application's result agrees with its model: the same lines and
/// final newline on success, an error exactly where the model fails.
pub open spec fn outcome(r: PatchResult<PatchOutput>, model: Option<(Seq<Seq<char>>, bool)>) -> bool {
    match r {
        Ok(o) => model == Some((o.spec_lines(), o.spec_final_newline())),
        Err(_) => model is None,
    }
}

/// The dialect and direction in which hunks of `kind` are applied.
pub open spec fn mode_of(kind: PatchFormat, reverse: bool) -> Option<Mode> {
    match kind {
        PatchFormat::Normal => Some(if reverse { Mode::NormalReverse } else { Mode::NormalForward }),
        PatchFormat::Unified => Some(if reverse { Mode::UnifiedReverse } else { Mode::UnifiedForward }),
        PatchFormat::Context => Some(if reverse { Mode::ContextReverse } else { Mode::ContextForward }),
        PatchFormat::EditScript => if reverse {
            None
        } else {
            Some(Mode::EditScriptForward)
        },
        PatchFormat::NoFormat => None,
    }
}

/// The side of the diff that the file read stands for.
pub open spec fn source_kind_of(reverse: bool) -> FileKind {
    if reverse {
        FileKind::Modified
    } else {
        FileKind::Original
    }
}

/// The error that refuses an edit script applied in reverse.
pub const UNSUPPORTED_REVERSE: &'static str = "ed format + reverse option is not possible!";

/// A hunk fit to be applied in a collection of `kind`: of that dialect,
/// holding only lines of it (or no-newline markers), and, for a context
/// hunk, with both ranges.
pub open spec fn hunk_well_formed(h: Hunk, kind: PatchFormat) -> bool {
    &&& h.spec_kind() == kind
    &&& match h {
        Hunk::Normal(d) => lines_belong(d.spec_lines(), kind),
        Hunk::Unified(d) => lines_belong(d.spec_lines(), kind),
        Hunk::EditScript(d) => lines_belong(d.spec_lines(), kind),
        Hunk::Context(d) => {
            &&& lines_belong(d.spec_original_lines(), kind)
            &&& lines_belong(d.spec_modified_lines(), kind)
            &&& d.spec_f1_range() is Some
            &&& d.spec_f2_range() is Some
        },
    }
}

pub open spec fn lines_belong(lines: Seq<PatchLine>, kind: PatchFormat) -> bool {
    forall|j: int| 0 <= j < lines.len() ==> #[trigger] lines[j].spec_belongs_to(kind)
}

fn all_belong(lines: &Vec<PatchLine>, kind: PatchFormat) -> (r: bool)
    ensures
        r == lines_belong(lines@, kind),
{
    let mut j: usize = 0;
    while j < lines.len()
        invariant
            j <= lines@.len(),
            forall|k: int| 0 <= k < j ==> #[trigger] lines@[k].spec_belongs_to(kind),
        decreases lines@.len() - j,
    {
        if !lines[j].belongs_to(kind) {
            return false;
        }
        j = j + 1;
    }
    true
}

fn hunk_is_well_formed(h: &Hunk, kind: PatchFormat) -> (r: bool)
    ensures
        r == hunk_well_formed(*h, kind),
{
    if h.kind() != kind {
        return false;
    }
    match h {
        Hunk::Normal(d) => all_belong(d.lines(), kind),
        Hunk::Unified(d) => all_belong(d.lines(), kind),
        Hunk::EditScript(d) => all_belong(d.lines(), kind),
        Hunk::Context(d) => all_belong(d.original_lines(), kind) && all_belong(
            d.modified_lines(),
            kind,
        ) && d.f1_range().is_some() && d.f2_range().is_some(),
    }
}

/// The error where no destination file can be named.
pub const NO_DESTINATION: &'static str = "Could not recognize destination/output file.";

/// What is recorded of a header: where it reads, its path and the time
/// its date gives (none where the date does not read); where it does not,
/// the earlier record is kept.
pub open spec fn recorded(
    header: Option<&str>,
    path: Option<String>,
    date: Option<i64>,
    old_path: Option<String>,
    old_date: Option<i64>,
) -> bool {
    match header_of(header) {
        Some(h) => {
            &&& path matches Some(p) && p@ == h.path
            &&& match date {
                Some(t) => parsed_timestamp(h.date, HEADER_DATE_FORMAT@) == Some(t as int),
                None => parsed_timestamp(h.date, HEADER_DATE_FORMAT@) is None,
            }
        },
        None => path == old_path && date == old_date,
    }
}

/// A backup is planned exactly where asked for: of the file read, or of
/// the output where nothing is read.
pub open spec fn backup_planned(options: PatchOptions, plan: ApplyPlan) -> bool {
    if options.backup {
        plan.backup matches Some(b) && b@ == match plan.source {
            Some(s) => s@,
            None => plan.output@,
        }
    } else {
        plan.backup is None
    }
}

/// The output named in the options, else `path`.
pub open spec fn output_or(options: PatchOptions, path: Seq<char>) -> Seq<char> {
    match options.output_file {
        Some(q) => q@,
        None => path,
    }
}

/// The plan of a normal or edit-script patch: the file argument is read,
/// the output file (else the file argument) written; with neither, an error.
pub open spec fn normal_ed_planned(options: PatchOptions, r: PatchResult<ApplyPlan>) -> bool {
    match options.file {
        Some(p) => r matches Ok(plan) && plan.source matches Some(s) && s@ == p@
            && plan.source_kind == source_kind_of(options.reverse) && plan.output@ == output_or(
            options,
            p@,
        ) && backup_planned(options, plan),
        None => match options.output_file {
            Some(q) => r matches Ok(plan) && plan.source is None && plan.output@ == q@
                && backup_planned(options, plan),
            None => r == Err::<ApplyPlan, PatchError>(PatchError::Error(NO_DESTINATION)),
        },
    }
}

/// The plan of a unified or context patch: the file that the chosen header
/// names is read, and written unless an output file is named; where that
/// header does not read, an error.
pub open spec fn headers_planned(
    options: PatchOptions,
    header1: Option<&str>,
    header2: Option<&str>,
    r: PatchResult<ApplyPlan>,
) -> bool {
    match destination(options.reverse, header_of(header1), header_of(header2)) {
        Some(p) => r matches Ok(plan) && plan.source matches Some(s) && s@ == p
            && plan.source_kind == source_kind_of(options.reverse) && plan.output@ == output_or(
            options,
            p,
        ) && backup_planned(options, plan),
        None => r == Err::<ApplyPlan, PatchError>(PatchError::Error(NO_DESTINATION)),
    }
}

/// Which files an application reads and writes: the file to read (none
/// where only an output file is named) and its side, the file to write, and
/// the file to back up first.
#[derive(Debug)]
pub struct ApplyPlan {
    pub source: Option<String>,
    pub source_kind: FileKind,
    pub output: String,
    pub backup: Option<String>,
}

} // verus!
