use tedit::{Document, Position};

fn rows_of(doc: &Document) -> Vec<String> {
    let mut rows = Vec::new();
    let mut i = 0;
    while let Some(row) = doc.row(i) {
        rows.push(row.contents().to_string());
        i += 1;
    }
    rows
}

#[test]
fn load_splits_on_line_feed() {
    let doc = Document::load("hello\nworld\n");
    assert_eq!(rows_of(&doc), vec!["hello", "world"]);
    assert_eq!(doc.len(), 2);
    assert!(!doc.is_empty());
}

#[test]
fn load_empty_text_gives_empty_buffer() {
    let doc = Document::load("");
    assert_eq!(doc.len(), 0);
    assert!(doc.is_empty());
}

#[test]
fn load_final_segment_without_terminator() {
    let doc = Document::load("a\nb");
    assert_eq!(rows_of(&doc), vec!["a", "b"]);
}

#[test]
fn load_strips_carriage_return_before_line_feed() {
    let doc = Document::load("a\r\nb\r\n");
    assert_eq!(rows_of(&doc), vec!["a", "b"]);
}

#[test]
fn load_keeps_lone_carriage_return() {
    let doc = Document::load("a\rb\n");
    assert_eq!(rows_of(&doc), vec!["a\rb"]);
}

#[test]
fn load_trailing_line_feed_adds_no_line() {
    let doc = Document::load("\n");
    assert_eq!(rows_of(&doc), vec![""]);
}

#[test]
fn persist_terminates_every_line() {
    let doc = Document::load("hello\nworld\n");
    assert_eq!(doc.persist(), "hello\nworld\n");
}

#[test]
fn round_trip_uniform_termination() {
    for text in ["", "a\n", "hello\nworld\n", "\n\n", "x\n\ny\n"] {
        let doc = Document::load(text);
        assert_eq!(doc.persist(), text, "round trip failed for {:?}", text);
    }
}

#[test]
fn row_lookup_is_bounds_checked() {
    let doc = Document::load("a\nb\n");
    assert!(doc.row(0).is_some());
    assert!(doc.row(1).is_some());
    assert!(doc.row(2).is_none());
}

#[test]
fn insert_into_line() {
    let mut doc = Document::load("ac\n");
    doc.insert(&Position { x: 1, y: 0 }, 'b');
    assert_eq!(rows_of(&doc), vec!["abc"]);
}

#[test]
fn insert_one_past_last_line_appends_line() {
    let mut doc = Document::load("a\n");
    doc.insert(&Position { x: 0, y: 1 }, 'b');
    assert_eq!(rows_of(&doc), vec!["a", "b"]);
}

#[test]
fn insert_line_feed_splits_line() {
    let mut doc = Document::load("abcd\n");
    doc.insert(&Position { x: 2, y: 0 }, '\n');
    assert_eq!(rows_of(&doc), vec!["ab", "cd"]);
}

#[test]
fn insert_line_feed_at_end_of_buffer_appends_empty_line() {
    let mut doc = Document::load("a\n");
    doc.insert(&Position { x: 0, y: 1 }, '\n');
    assert_eq!(rows_of(&doc), vec!["a", ""]);
}

#[test]
fn delete_within_line() {
    let mut doc = Document::load("abc\n");
    doc.delete(&Position { x: 1, y: 0 });
    assert_eq!(rows_of(&doc), vec!["ac"]);
}

#[test]
fn delete_at_line_end_joins_next_line() {
    let mut doc = Document::load("ab\ncd\n");
    doc.delete(&Position { x: 2, y: 0 });
    assert_eq!(rows_of(&doc), vec!["abcd"]);
    assert_eq!(doc.len(), 1);
}

#[test]
fn delete_at_end_of_last_line_is_noop() {
    let mut doc = Document::load("ab\n");
    doc.delete(&Position { x: 2, y: 0 });
    assert_eq!(rows_of(&doc), vec!["ab"]);
}

#[test]
fn delete_past_last_line_is_noop() {
    let mut doc = Document::load("ab\n");
    doc.delete(&Position { x: 0, y: 5 });
    assert_eq!(rows_of(&doc), vec!["ab"]);
}

#[test]
fn file_name_rides_along() {
    let mut doc = Document::load("a\n");
    assert!(doc.file_name().is_none());
    doc.set_file_name(Some("notes.txt".to_string()));
    assert_eq!(doc.file_name().as_deref(), Some("notes.txt"));
    doc.insert(&Position { x: 0, y: 0 }, 'x');
    assert_eq!(doc.file_name().as_deref(), Some("notes.txt"));
}
