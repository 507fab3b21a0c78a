use patch_engine::edit_script_range_data::{EditScriptHunkKind, EditScriptRangeData};
use patch_engine::patch_format::PatchFormat;
use patch_engine::range::{Range, RangeError};

#[test]
fn unified_range_end_is_start_plus_count() {
    let r = Range::new(7, 3, PatchFormat::Unified);
    assert_eq!(r.start(), 7);
    assert_eq!(r.end(), 10);
}

#[test]
fn absolute_range_end_is_stored_end() {
    for kind in [PatchFormat::Normal, PatchFormat::Context, PatchFormat::EditScript] {
        let r = Range::new(4, 9, kind);
        assert_eq!(r.start(), 4);
        assert_eq!(r.end(), 9);
    }
}

#[test]
fn unified_range_accepts_start_past_count() {
    let r = Range::new(12, 2, PatchFormat::Unified);
    assert_eq!(r.end(), 14);
}

#[test]
fn unknown_format_has_no_end() {
    let r = Range::new(1, 2, PatchFormat::NoFormat);
    assert_eq!(r.checked_end(), None);
    assert_eq!(Range::new(1, 2, PatchFormat::Normal).checked_end(), Some(2));
}

#[test]
fn decode_unified_ranges() {
    let r = Range::try_from_unified("-3,4").unwrap();
    assert_eq!((r.start(), r.end()), (3, 7));
    let r = Range::try_from_unified("+12").unwrap();
    assert_eq!((r.start(), r.end()), (12, 12));
    assert!(matches!(Range::try_from_unified("1,2,3"), Err(RangeError::InvalidRange)));
    assert!(matches!(Range::try_from_unified("x,2"), Err(RangeError::InvalidRange)));
    assert!(matches!(Range::try_from_unified(""), Err(RangeError::InvalidRange)));
    assert!(matches!(Range::try_from_unified("1-2"), Err(RangeError::InvalidRange)));
}

#[test]
fn decode_context_ranges() {
    let r = Range::try_from_context("*** 3,5 ****").unwrap();
    assert_eq!((r.start(), r.end()), (3, 5));
    let r = Range::try_from_context("--- 7 ----").unwrap();
    assert_eq!((r.start(), r.end()), (7, 7));
    assert!(matches!(Range::try_from_context("*** 3,5"), Err(RangeError::InvalidRange)));
    assert!(matches!(Range::try_from_context("*** a,5 ****"), Err(RangeError::InvalidRange)));
    assert!(matches!(Range::try_from_context("*** 1,2,3 ****"), Err(RangeError::InvalidRange)));
    assert!(matches!(Range::try_from_context("*** 5,3 ****"), Err(RangeError::InvalidRange)));
}

#[test]
fn decode_edit_script_headers() {
    let r = Range::try_from_edit_script("4,6d").unwrap();
    assert_eq!((r.start(), r.end()), (4, 6));
    assert_eq!(Range::edit_script_range_kind("4,6d"), Some(EditScriptHunkKind::Delete));
    let r = Range::try_from_edit_script("10a").unwrap();
    assert_eq!((r.start(), r.end()), (10, 10));
    assert_eq!(Range::edit_script_range_kind("10a"), Some(EditScriptHunkKind::Insert));
    assert_eq!(Range::edit_script_range_kind("2,3c"), Some(EditScriptHunkKind::Change));
    assert_eq!(Range::edit_script_range_kind("2,3x"), None);
    assert_eq!(Range::edit_script_range_kind("   "), None);
}

#[test]
fn decode_edit_script_errors() {
    match Range::try_from_edit_script("xa") {
        Err(RangeError::InvalidRangeWithError(message)) => {
            assert_eq!(message, "invalid digit found in string")
        }
        other => panic!("unexpected {:?}", other.map(|r| r.start())),
    }
    match Range::try_from_edit_script("1,yd") {
        Err(RangeError::InvalidRangeWithError(message)) => {
            assert_eq!(message, "invalid digit found in string")
        }
        other => panic!("unexpected {:?}", other.map(|r| r.start())),
    }
    match Range::try_from_edit_script("x,yd") {
        Err(RangeError::InvalidRangeWithError(message)) => {
            assert_eq!(message, "invalid digit found in string\ninvalid digit found in string")
        }
        other => panic!("unexpected {:?}", other.map(|r| r.start())),
    }
    assert!(matches!(Range::try_from_edit_script("1,2,3d"), Err(RangeError::InvalidRange)));
    match Range::try_from_edit_script("") {
        Err(RangeError::InvalidRangeWithError(message)) => {
            assert_eq!(message, "cannot parse integer from empty string")
        }
        other => panic!("unexpected {:?}", other.map(|r| r.start())),
    }
}

#[test]
fn edit_script_range_data_keeps_its_parts() {
    let range = Range::new(2, 3, PatchFormat::EditScript);
    let data = EditScriptRangeData::new("2,3c", range, EditScriptHunkKind::Change);
    assert_eq!(data.line(), "2,3c");
    assert_eq!(data.kind(), EditScriptHunkKind::Change);
    assert_eq!((data.range().start(), data.range().end()), (2, 3));
}
