use patch_engine::record_reader::{RecordSeparator, StringRecordReader};

fn split_records(file_contents: &str, separator: RecordSeparator) -> Vec<String> {
    let mut reader = StringRecordReader::from(file_contents);
    let mut result = Vec::new();
    while let Some(record) = reader.read_next_record(&separator).unwrap() {
        result.push(record);
    }
    result
}

#[test]
fn split_empty_file() {
    assert!(split_records("", RecordSeparator::Null).is_empty());
}

#[test]
fn split_records_with_default_separator() {
    let records = split_records("record1\nrecord2\n  \t\nrecord3\n", RecordSeparator::Null);
    assert_eq!(records, vec!["record1", "record2", "record3"]);
}

#[test]
fn split_records_with_separator_chars() {
    let records = split_records("record1,record2,record3", RecordSeparator::Char(b','));
    assert_eq!(records, vec!["record1", "record2", "record3"]);
}

#[test]
fn split_records_skips_leading_blank_lines() {
    let records = split_records("\n\n  first\nsecond", RecordSeparator::Null);
    assert_eq!(records, vec!["first", "second"]);
}

#[test]
fn split_records_keeps_empty_fields_between_separators() {
    let records = split_records("a,,b,", RecordSeparator::Char(b','));
    assert_eq!(records, vec!["a", "", "b"]);
}

#[test]
fn separator_from_text() {
    assert_eq!(
        RecordSeparator::try_from(String::new()).unwrap(),
        RecordSeparator::Null
    );
    assert_eq!(
        RecordSeparator::try_from(String::from(";")).unwrap(),
        RecordSeparator::Char(b';')
    );
    assert_eq!(
        RecordSeparator::try_from(String::from(";;")).unwrap_err(),
        "the record separator cannot contain more than one characters"
    );
}

#[test]
fn reader_reports_progress() {
    let mut reader = StringRecordReader::from("xy");
    assert!(!reader.is_done());
    assert_eq!(reader.last_byte_read(), None);
    assert_eq!(reader.next(), Some(Ok(b'x')));
    assert_eq!(reader.last_byte_read(), Some(b'x'));
    assert_eq!(reader.next(), Some(Ok(b'y')));
    assert!(reader.is_done());
    assert_eq!(reader.next(), None);
}
