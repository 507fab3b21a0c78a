use patch_engine::header::parse_header;
use patch_engine::range::Range;
use patch_engine::edit_script_range_data::EditScriptHunkKind;

#[test]
fn header_gives_path_and_time() {
    let file = parse_header("--- src/old.txt\t2024-01-02 03:04:05.000000000 +0000").unwrap();
    assert_eq!(file.path, "src/old.txt");
    assert_eq!(file.date, Some(1704164645));
}

#[test]
fn header_with_unreadable_date_keeps_path() {
    let file = parse_header("*** a.txt\tyesterday").unwrap();
    assert_eq!(file.path, "a.txt");
    assert_eq!(file.date, None);
}

#[test]
fn header_without_tab_is_not_recognized() {
    assert!(parse_header("--- a.txt").is_none());
    assert!(parse_header("@@ -1 +1 @@").is_none());
}

#[test]
fn edit_script_kind_ignores_surrounding_whitespace() {
    assert_eq!(Range::edit_script_range_kind("  2d \n"), Some(EditScriptHunkKind::Delete));
    let r = Range::try_from_edit_script("5c ").unwrap();
    assert_eq!((r.start(), r.end()), (5, 5));
    let r = Range::try_from_edit_script(" 4d").unwrap();
    assert_eq!((r.start(), r.end()), (4, 4));
}
