use patch_engine::context_hunk_data::ContextHunkData;
use patch_engine::edit_script_hunk_data::EditScriptHunkData;
use patch_engine::edit_script_range_data::{EditScriptHunkKind, EditScriptRangeData};
use patch_engine::hunk::Hunk;
use patch_engine::hunks::{backup_file_name, choose_destination, Apply, Hunks, PatchOptions};
use patch_engine::normal_hunk_data::NormalHunkData;
use patch_engine::patch_error::PatchError;
use patch_engine::patch_file::{FileKind, PatchFile};
use patch_engine::patch_format::PatchFormat;
use patch_engine::patch_line::{NormalRangeData, NormalRangeKind, PatchLine};
use patch_engine::range::Range;
use patch_engine::unified_hunk_data::UnifiedHunkData;

fn options(reverse: bool) -> PatchOptions {
    PatchOptions {
        reverse,
        force: false,
        backup: false,
        file: Some(String::from("target.txt")),
        output_file: None,
    }
}

fn lines_of(text: &str, kind: FileKind) -> PatchFile {
    PatchFile::from_text(text, kind)
}

fn output_lines(hunks: &Hunks, file: &PatchFile) -> (Vec<String>, bool) {
    let out = hunks.apply(file).unwrap();
    (out.lines().clone(), out.final_newline())
}

fn normal_delete_second_line<'a>() -> Hunk<'a> {
    let left = Range::new(2, 2, PatchFormat::Normal);
    let right = Range::new(1, 1, PatchFormat::Normal);
    let header = NormalRangeData::new("2d1", left, right, NormalRangeKind::Delete);
    Hunk::Normal(NormalHunkData::new(
        left,
        right,
        vec![PatchLine::NormalRange(header), PatchLine::NormalLineDelete("b")],
    ))
}

fn normal_change_third_line<'a>() -> Hunk<'a> {
    let left = Range::new(3, 3, PatchFormat::Normal);
    let right = Range::new(3, 3, PatchFormat::Normal);
    let header = NormalRangeData::new("3c3", left, right, NormalRangeKind::Change);
    Hunk::Normal(NormalHunkData::new(
        left,
        right,
        vec![
            PatchLine::NormalRange(header),
            PatchLine::NormalLineDelete("c"),
            PatchLine::NormalChangeSeparator("---"),
            PatchLine::NormalLineInsert("C"),
        ],
    ))
}

fn unified_drop_last_line<'a>() -> Hunk<'a> {
    Hunk::Unified(UnifiedHunkData::new(
        Range::new(2, 2, PatchFormat::Unified),
        Range::new(2, 1, PatchFormat::Unified),
        vec![
            PatchLine::UnifiedHunkHeader("@@ -2,2 +2,1 @@"),
            PatchLine::UnifiedUnchanged("b"),
            PatchLine::UnifiedDeleted("c"),
        ],
    ))
}

fn context_change_last_line<'a>() -> Hunk<'a> {
    let mut data = ContextHunkData::new();
    data.add_patch_line(PatchLine::ContextHunkSeparator("***************"));
    data.add_patch_line(PatchLine::ContextHunkRange(
        "*** 2,3 ****",
        Range::try_from_context("*** 2,3 ****").unwrap(),
    ));
    data.add_patch_line(PatchLine::ContextUnchanged("b"));
    data.add_patch_line(PatchLine::ContextDeleted("c", true));
    data.add_patch_line(PatchLine::ContextHunkRange(
        "--- 2,3 ----",
        Range::try_from_context("--- 2,3 ----").unwrap(),
    ));
    data.add_patch_line(PatchLine::ContextUnchanged("b"));
    data.add_patch_line(PatchLine::ContextInserted("C", true));
    Hunk::Context(data)
}

fn edit_script_delete_second_line<'a>() -> Hunk<'a> {
    let range = Range::try_from_edit_script("2d").unwrap();
    let kind = Range::edit_script_range_kind("2d").unwrap();
    let header = EditScriptRangeData::new("2d", range, kind);
    Hunk::EditScript(EditScriptHunkData::new(
        range,
        kind,
        vec![PatchLine::EditScriptRange(header)],
    ))
}

#[test]
fn normal_delete_forward_stops_after_last_hunk() {
    let opts = options(false);
    let mut hunks = Hunks::new(PatchFormat::Normal, &opts);
    hunks.add_hunk(normal_delete_second_line());
    let file = lines_of("a\nb\nc\n", FileKind::Original);
    let out = hunks.apply(&file).unwrap();
    assert_eq!(out.lines().clone(), vec!["a"]);
    assert!(out.final_newline());
    assert_eq!(out.to_text(), "a\n");
}

#[test]
fn normal_delete_reverse_restores_deleted_line() {
    let opts = options(true);
    let mut hunks = Hunks::new(PatchFormat::Normal, &opts);
    hunks.add_hunk(normal_delete_second_line());
    let file = lines_of("a\nc\n", FileKind::Modified);
    let (lines, final_newline) = output_lines(&hunks, &file);
    assert_eq!(lines, vec!["a", "b"]);
    assert!(final_newline);
}

#[test]
fn normal_change_round_trip() {
    let forward_opts = options(false);
    let mut forward = Hunks::new(PatchFormat::Normal, &forward_opts);
    forward.add_hunk(normal_change_third_line());
    let (b, _) = output_lines(&forward, &lines_of("a\nb\nc\n", FileKind::Original));
    assert_eq!(b, vec!["a", "b", "C"]);
    let reverse_opts = options(true);
    let mut reverse = Hunks::new(PatchFormat::Normal, &reverse_opts);
    reverse.add_hunk(normal_change_third_line());
    let file = PatchFile::new(b, true, FileKind::Modified);
    let (a, _) = output_lines(&reverse, &file);
    assert_eq!(a, vec!["a", "b", "c"]);
}

#[test]
fn unified_round_trip() {
    let forward_opts = options(false);
    let mut forward = Hunks::new(PatchFormat::Unified, &forward_opts);
    forward.add_hunk(unified_drop_last_line());
    let (b, _) = output_lines(&forward, &lines_of("a\nb\nc\n", FileKind::Original));
    assert_eq!(b, vec!["a", "b"]);
    let reverse_opts = options(true);
    let mut reverse = Hunks::new(PatchFormat::Unified, &reverse_opts);
    reverse.add_hunk(unified_drop_last_line());
    let (a, _) = output_lines(&reverse, &PatchFile::new(b, true, FileKind::Modified));
    assert_eq!(a, vec!["a", "b", "c"]);
}

#[test]
fn context_round_trip() {
    let forward_opts = options(false);
    let mut forward = Hunks::new(PatchFormat::Context, &forward_opts);
    forward.add_hunk(context_change_last_line());
    let (b, _) = output_lines(&forward, &lines_of("a\nb\nc\n", FileKind::Original));
    assert_eq!(b, vec!["a", "b", "C"]);
    let reverse_opts = options(true);
    let mut reverse = Hunks::new(PatchFormat::Context, &reverse_opts);
    reverse.add_hunk(context_change_last_line());
    let (a, _) = output_lines(&reverse, &PatchFile::new(b, true, FileKind::Modified));
    assert_eq!(a, vec!["a", "b", "c"]);
}

#[test]
fn edit_script_forward_copies_the_tail() {
    let opts = options(false);
    let mut hunks = Hunks::new(PatchFormat::EditScript, &opts);
    hunks.add_hunk(edit_script_delete_second_line());
    let (lines, final_newline) = output_lines(&hunks, &lines_of("a\nb\nc\nd\n", FileKind::Original));
    assert_eq!(lines, vec!["a", "c", "d"]);
    assert!(final_newline);
}

#[test]
fn edit_script_reverse_is_refused() {
    let opts = options(true);
    let mut hunks = Hunks::new(PatchFormat::EditScript, &opts);
    hunks.add_hunk(edit_script_delete_second_line());
    let file = lines_of("a\nc\n", FileKind::Modified);
    match hunks.apply(&file) {
        Err(PatchError::Error(message)) => {
            assert_eq!(message, "ed format + reverse option is not possible!")
        }
        other => panic!("unexpected {:?}", other.map(|o| o.lines().len())),
    }
}

#[test]
fn hunks_are_applied_in_key_order() {
    let opts = options(false);
    let mut hunks = Hunks::new(PatchFormat::Unified, &opts);
    hunks.add_hunk(Hunk::Unified(UnifiedHunkData::new(
        Range::new(3, 1, PatchFormat::Unified),
        Range::new(3, 1, PatchFormat::Unified),
        vec![PatchLine::UnifiedDeleted("c"), PatchLine::UnifiedInserted("C")],
    )));
    hunks.add_hunk(Hunk::Unified(UnifiedHunkData::new(
        Range::new(1, 1, PatchFormat::Unified),
        Range::new(1, 1, PatchFormat::Unified),
        vec![PatchLine::UnifiedDeleted("a"), PatchLine::UnifiedInserted("A")],
    )));
    assert!(!hunks.has_no_hunks());
    let (lines, _) = output_lines(&hunks, &lines_of("a\nb\nc\n", FileKind::Original));
    assert_eq!(lines, vec!["A", "b", "C"]);
}

#[test]
fn no_newline_markers_decide_the_final_newline() {
    let marked = |count: usize, ends_with_newline: bool| {
        let opts = options(false);
        let mut hunks = Hunks::new(PatchFormat::Unified, &opts);
        let mut lines = vec![PatchLine::UnifiedDeleted("a"), PatchLine::UnifiedInserted("A")];
        for _ in 0..count {
            lines.push(PatchLine::NoNewLine("\\ No newline at end of file"));
        }
        hunks.add_hunk(Hunk::Unified(UnifiedHunkData::new(
            Range::new(1, 1, PatchFormat::Unified),
            Range::new(1, 1, PatchFormat::Unified),
            lines,
        )));
        let file = PatchFile::new(vec![String::from("a")], ends_with_newline, FileKind::Original);
        hunks.apply(&file).unwrap().final_newline()
    };
    assert!(marked(0, true));
    assert!(marked(0, false));
    assert!(marked(1, false));
    assert!(!marked(1, true));
    assert!(!marked(2, false));
}

#[test]
fn source_too_short_is_an_error() {
    let opts = options(false);
    let mut hunks = Hunks::new(PatchFormat::Unified, &opts);
    hunks.add_hunk(Hunk::Unified(UnifiedHunkData::new(
        Range::new(5, 1, PatchFormat::Unified),
        Range::new(5, 1, PatchFormat::Unified),
        vec![PatchLine::UnifiedDeleted("e")],
    )));
    assert!(hunks.apply(&lines_of("a\n", FileKind::Original)).is_err());
}

#[test]
fn backup_of_missing_file_fails() {
    let mut opts = options(false);
    opts.backup = true;
    let hunks = Hunks::new(PatchFormat::Normal, &opts);
    assert!(matches!(
        hunks.handle_backup(false),
        Err(PatchError::Error("Path to backup is not a file"))
    ));
    assert!(matches!(hunks.handle_backup(true), Ok(true)));
    let plain = options(false);
    let hunks = Hunks::new(PatchFormat::Normal, &plain);
    assert!(matches!(hunks.handle_backup(false), Ok(false)));
    assert_eq!(backup_file_name("notes.txt"), "notes.txt.orig");
}

#[test]
fn destinations_come_from_headers() {
    let opts = options(true);
    let mut hunks = Hunks::new(PatchFormat::Unified, &opts);
    hunks.set_f1_header("--- old.txt\t2024-01-02 03:04:05.000000000 +0000");
    hunks.set_f2_header("+++ new.txt\t2024-01-02 03:04:06.000000000 +0000");
    let plan = hunks.prepare_to_apply().unwrap();
    assert_eq!(plan.source, Some(String::from("new.txt")));
    assert_eq!(plan.output, "new.txt");
    assert_eq!(plan.source_kind, FileKind::Modified);
    assert_eq!(plan.backup, None);

    let opts = options(false);
    let mut hunks = Hunks::new(PatchFormat::Context, &opts);
    hunks.set_f1_header("*** old.txt\t2024-01-02 03:04:05.000000000 +0000");
    hunks.set_f2_header("--- new.txt\t2024-01-02 03:04:06.000000000 +0000");
    let plan = hunks.prepare_to_apply().unwrap();
    assert_eq!(plan.source, Some(String::from("old.txt")));
    assert_eq!(plan.source_kind, FileKind::Original);

    let mut hunks = Hunks::new(PatchFormat::Context, &opts);
    hunks.set_f1_header("no header here");
    hunks.set_f2_header("--- new.txt\t2024-01-02 03:04:06.000000000 +0000");
    assert!(matches!(
        hunks.prepare_to_apply(),
        Err(PatchError::Error("Could not recognize destination/output file."))
    ));
    assert_eq!(
        choose_destination(false, Some(String::from("x")), None).unwrap(),
        "x"
    );
}

#[test]
fn normal_patch_files_come_from_options() {
    let opts = options(false);
    let mut hunks = Hunks::new(PatchFormat::Normal, &opts);
    let plan = hunks.prepare_to_apply().unwrap();
    assert_eq!(plan.source, Some(String::from("target.txt")));
    assert_eq!(plan.output, "target.txt");
    let none = PatchOptions {
        reverse: false,
        force: false,
        backup: false,
        file: None,
        output_file: None,
    };
    let mut hunks = Hunks::new(PatchFormat::EditScript, &none);
    assert!(hunks.prepare_to_apply().is_err());
}

#[test]
fn file_text_is_split_into_lines() {
    let file = PatchFile::from_text("x\ny", FileKind::Original);
    assert_eq!(file.lines().clone(), vec!["x", "y"]);
    assert!(!file.ends_with_newline());
    let file = PatchFile::from_text("x\n", FileKind::Modified);
    assert_eq!(file.lines().clone(), vec!["x"]);
    assert!(file.ends_with_newline());
    assert_eq!(file.kind(), FileKind::Modified);
    assert!(PatchFile::from_text("", FileKind::Original).lines().is_empty());
}

#[test]
fn adding_lines_goes_to_the_last_hunk() {
    let opts = options(false);
    let mut hunks = Hunks::new(PatchFormat::Unified, &opts);
    assert!(hunks.has_no_hunks());
    hunks.add_hunk(Hunk::Unified(UnifiedHunkData::new(
        Range::new(1, 1, PatchFormat::Unified),
        Range::new(1, 1, PatchFormat::Unified),
        vec![],
    )));
    hunks.add_patch_line(PatchLine::UnifiedDeleted("a"));
    hunks.add_patch_line(PatchLine::UnifiedInserted("Z"));
    let (lines, _) = output_lines(&hunks, &lines_of("a\n", FileKind::Original));
    assert_eq!(lines, vec!["Z"]);
}

#[test]
fn unified_two_hunk_round_trip() {
    let make = || {
        vec![
            Hunk::Unified(UnifiedHunkData::new(
                Range::new(1, 2, PatchFormat::Unified),
                Range::new(1, 3, PatchFormat::Unified),
                vec![
                    PatchLine::UnifiedHunkHeader("@@ -1,2 +1,3 @@"),
                    PatchLine::UnifiedUnchanged("one"),
                    PatchLine::UnifiedInserted("one and a half"),
                    PatchLine::UnifiedUnchanged("two"),
                ],
            )),
            Hunk::Unified(UnifiedHunkData::new(
                Range::new(4, 2, PatchFormat::Unified),
                Range::new(5, 1, PatchFormat::Unified),
                vec![
                    PatchLine::UnifiedHunkHeader("@@ -4,2 +5,1 @@"),
                    PatchLine::UnifiedDeleted("four"),
                    PatchLine::UnifiedUnchanged("five"),
                ],
            )),
        ]
    };
    let forward_opts = options(false);
    let mut forward = Hunks::new(PatchFormat::Unified, &forward_opts);
    for h in make() {
        forward.add_hunk(h);
    }
    let a = lines_of("one\ntwo\nthree\nfour\nfive\n", FileKind::Original);
    let (b, _) = output_lines(&forward, &a);
    assert_eq!(b, vec!["one", "one and a half", "two", "three", "five"]);
    let reverse_opts = options(true);
    let mut reverse = Hunks::new(PatchFormat::Unified, &reverse_opts);
    for h in make() {
        reverse.add_hunk(h);
    }
    let (back, _) = output_lines(&reverse, &PatchFile::new(b, true, FileKind::Modified));
    assert_eq!(back, vec!["one", "two", "three", "four", "five"]);
}

#[test]
fn edit_script_terminator_is_not_applied() {
    let opts = options(false);
    let mut hunks = Hunks::new(PatchFormat::EditScript, &opts);
    let range = Range::try_from_edit_script("1a").unwrap();
    let header = EditScriptRangeData::new("1a", range, EditScriptHunkKind::Insert);
    hunks.add_hunk(Hunk::EditScript(EditScriptHunkData::new(
        range,
        EditScriptHunkKind::Insert,
        vec![
            PatchLine::EditScriptRange(header),
            PatchLine::EditScriptInsert("new"),
            PatchLine::EditScriptInsert("."),
        ],
    )));
    let (lines, _) = output_lines(&hunks, &lines_of("a\nb\nc\n", FileKind::Original));
    assert_eq!(lines, vec!["a", "new", "b", "c"]);
}

#[test]
fn edit_script_copies_a_single_remaining_line() {
    let opts = options(false);
    let mut hunks = Hunks::new(PatchFormat::EditScript, &opts);
    hunks.add_hunk(edit_script_delete_second_line());
    let out = hunks.apply(&lines_of("a\nb\nc\n", FileKind::Original)).unwrap();
    assert_eq!(out.lines().clone(), vec!["a", "c"]);
    assert_eq!(out.to_text(), "a\nc\n");
}

#[test]
fn normal_insert_writes_its_anchor_line_once() {
    let opts = options(false);
    let mut hunks = Hunks::new(PatchFormat::Normal, &opts);
    let left = Range::new(1, 1, PatchFormat::Normal);
    let right = Range::new(2, 2, PatchFormat::Normal);
    let header = NormalRangeData::new("1a2", left, right, NormalRangeKind::Insert);
    hunks.add_hunk(Hunk::Normal(NormalHunkData::new(
        left,
        right,
        vec![PatchLine::NormalRange(header), PatchLine::NormalLineInsert("x")],
    )));
    let left = Range::new(3, 3, PatchFormat::Normal);
    let right = Range::new(2, 2, PatchFormat::Normal);
    let header = NormalRangeData::new("3d2", left, right, NormalRangeKind::Delete);
    hunks.add_hunk(Hunk::Normal(NormalHunkData::new(
        left,
        right,
        vec![PatchLine::NormalRange(header), PatchLine::NormalLineDelete("c")],
    )));
    let (lines, _) = output_lines(&hunks, &lines_of("a\nb\nc\n", FileKind::Original));
    assert_eq!(lines, vec!["a", "x", "b"]);
}

fn context_change<'a>(
    first: &'a str,
    second: &'a str,
    keep: &'a str,
    old: &'a str,
    new: &'a str,
) -> Hunk<'a> {
    let mut data = ContextHunkData::new();
    data.add_patch_line(PatchLine::ContextHunkSeparator("***************"));
    data.add_patch_line(PatchLine::ContextHunkRange(first, Range::try_from_context(first).unwrap()));
    data.add_patch_line(PatchLine::ContextUnchanged(keep));
    data.add_patch_line(PatchLine::ContextDeleted(old, true));
    data.add_patch_line(PatchLine::ContextHunkRange(second, Range::try_from_context(second).unwrap()));
    data.add_patch_line(PatchLine::ContextUnchanged(keep));
    data.add_patch_line(PatchLine::ContextInserted(new, true));
    Hunk::Context(data)
}

#[test]
fn context_changes_in_two_hunks() {
    let opts = options(false);
    let mut hunks = Hunks::new(PatchFormat::Context, &opts);
    hunks.add_hunk(context_change("*** 1,2 ****", "--- 1,2 ----", "a", "b", "B"));
    hunks.add_hunk(context_change("*** 4,5 ****", "--- 4,5 ----", "d", "e", "E"));
    let (lines, _) = output_lines(&hunks, &lines_of("a\nb\nc\nd\ne\nf\n", FileKind::Original));
    assert_eq!(lines, vec!["a", "B", "c", "d", "E"]);
}

#[test]
fn explicit_output_file_wins() {
    let mut opts = options(false);
    opts.output_file = Some(String::from("out.txt"));
    opts.backup = true;
    let mut hunks = Hunks::new(PatchFormat::Normal, &opts);
    let plan = hunks.prepare_to_apply().unwrap();
    assert_eq!(plan.source, Some(String::from("target.txt")));
    assert_eq!(plan.output, "out.txt");
    assert_eq!(plan.backup, Some(String::from("target.txt")));

    let mut hunks = Hunks::new(PatchFormat::Unified, &opts);
    hunks.set_f1_header("--- old.txt\t2024-01-02 03:04:05.000000000 +0000");
    hunks.set_f2_header("+++ new.txt\t2024-01-02 03:04:06.000000000 +0000");
    let plan = hunks.prepare_to_apply().unwrap();
    assert_eq!(plan.source, Some(String::from("old.txt")));
    assert_eq!(plan.output, "out.txt");
    assert_eq!(plan.backup, Some(String::from("old.txt")));
}

#[test]
fn text_without_final_newline() {
    let opts = options(false);
    let mut hunks = Hunks::new(PatchFormat::Unified, &opts);
    hunks.add_hunk(Hunk::Unified(UnifiedHunkData::new(
        Range::new(1, 2, PatchFormat::Unified),
        Range::new(1, 2, PatchFormat::Unified),
        vec![
            PatchLine::UnifiedDeleted("a"),
            PatchLine::UnifiedInserted("A"),
            PatchLine::UnifiedUnchanged("b"),
            PatchLine::NoNewLine("\\ No newline at end of file"),
            PatchLine::NoNewLine("\\ No newline at end of file"),
        ],
    )));
    let out = hunks.apply(&lines_of("a\nb", FileKind::Original)).unwrap();
    assert_eq!(out.to_text(), "A\nb");
}

#[test]
fn headers_are_recorded() {
    let opts = options(false);
    let mut hunks = Hunks::new(PatchFormat::Unified, &opts);
    hunks.set_f1_header("--- old.txt\t2024-01-02 03:04:05.000000000 +0000");
    hunks.set_f2_header("+++ new.txt\tnot a date");
    hunks.prepare_to_apply().unwrap();
    assert_eq!(hunks.file1_path(), &Some(String::from("old.txt")));
    assert_eq!(hunks.file1_date(), &Some(1704164645));
    assert_eq!(hunks.file2_path(), &Some(String::from("new.txt")));
    assert_eq!(hunks.file2_date(), &None);
}

#[test]
fn foreign_lines_are_not_well_formed() {
    let opts = options(false);
    let mut hunks = Hunks::new(PatchFormat::Unified, &opts);
    hunks.add_hunk(Hunk::Unified(UnifiedHunkData::new(
        Range::new(1, 1, PatchFormat::Unified),
        Range::new(1, 1, PatchFormat::Unified),
        vec![PatchLine::UnifiedDeleted("a")],
    )));
    assert!(hunks.is_well_formed());
    let mut bad = Hunks::new(PatchFormat::Unified, &opts);
    bad.add_hunk(Hunk::Unified(UnifiedHunkData::new(
        Range::new(1, 1, PatchFormat::Unified),
        Range::new(1, 1, PatchFormat::Unified),
        vec![PatchLine::NormalLineInsert("a")],
    )));
    assert!(!bad.is_well_formed());
    let mut context = Hunks::new(PatchFormat::Context, &opts);
    context.add_hunk(Hunk::Context(ContextHunkData::new()));
    assert!(!context.is_well_formed());
}
