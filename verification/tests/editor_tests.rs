use tedit::editor::{Direction, EditorAction, Key, StatusMessage};
use tedit::{Document, Editor, Position, Size};

fn editor_with(text: &str, width: u16, height: u16) -> Editor {
    Editor::new(
        Document::load(text),
        Size { width, height },
        String::from("HELP: Ctrl-Q = quit, Ctrl-S = save"),
        0,
    )
}

fn rows_of(editor: &Editor) -> Vec<String> {
    let mut rows = Vec::new();
    let mut i = 0;
    while let Some(row) = editor.document.row(i) {
        rows.push(row.contents().to_string());
        i += 1;
    }
    rows
}

fn cursor(editor: &Editor) -> (usize, usize) {
    (editor.cursor_position.x, editor.cursor_position.y)
}

#[test]
fn new_editor_starts_at_origin() {
    let editor = editor_with("ab\n", 80, 24);
    assert_eq!(cursor(&editor), (0, 0));
    assert_eq!(editor.offset, Position { x: 0, y: 0 });
    assert!(!editor.should_quit);
}

#[test]
fn quit_event_raises_quit_flag_only() {
    let mut editor = editor_with("ab\n", 80, 24);
    let action = editor.process_event(Key::Quit);
    assert_eq!(action, EditorAction::Continue);
    assert!(editor.should_quit);
    assert_eq!(rows_of(&editor), vec!["ab"]);
}

#[test]
fn save_event_requests_save() {
    let mut editor = editor_with("ab\n", 80, 24);
    let action = editor.process_event(Key::Save);
    assert_eq!(action, EditorAction::Save);
    assert!(!editor.should_quit);
}

#[test]
fn insert_into_empty_buffer() {
    let mut editor = editor_with("", 80, 24);
    editor.process_event(Key::Insert('h'));
    editor.process_event(Key::Insert('i'));
    assert_eq!(rows_of(&editor), vec!["hi"]);
    assert_eq!(cursor(&editor), (2, 0));
}

#[test]
fn backspace_at_start_of_line_joins_lines() {
    let mut editor = editor_with("ab\ncd\n", 80, 24);
    editor.process_event(Key::Move(Direction::Down));
    assert_eq!(cursor(&editor), (0, 1));
    editor.process_event(Key::DeleteBackward);
    assert_eq!(rows_of(&editor), vec!["abcd"]);
    assert_eq!(cursor(&editor), (2, 0));
}

#[test]
fn backspace_at_origin_is_noop() {
    let mut editor = editor_with("ab\n", 80, 24);
    editor.process_event(Key::DeleteBackward);
    assert_eq!(rows_of(&editor), vec!["ab"]);
    assert_eq!(cursor(&editor), (0, 0));
}

#[test]
fn backspace_in_middle_of_line() {
    let mut editor = editor_with("abc\n", 80, 24);
    editor.process_event(Key::Move(Direction::Right));
    editor.process_event(Key::Move(Direction::Right));
    editor.process_event(Key::DeleteBackward);
    assert_eq!(rows_of(&editor), vec!["ac"]);
    assert_eq!(cursor(&editor), (1, 0));
}

#[test]
fn insert_on_line_past_end_appends_line() {
    let mut editor = editor_with("ab\n", 80, 24);
    editor.process_event(Key::Move(Direction::Down));
    assert_eq!(cursor(&editor), (0, 1));
    editor.process_event(Key::Insert('x'));
    assert_eq!(rows_of(&editor), vec!["ab", "x"]);
    assert_eq!(cursor(&editor), (1, 1));
}

#[test]
fn insert_line_feed_splits_at_cursor() {
    let mut editor = editor_with("abcd\n", 80, 24);
    editor.process_event(Key::Move(Direction::Right));
    editor.process_event(Key::Move(Direction::Right));
    editor.process_event(Key::Insert('\n'));
    assert_eq!(rows_of(&editor), vec!["ab", "cd"]);
}

#[test]
fn delete_forward_at_line_end_joins_lines() {
    let mut editor = editor_with("ab\ncd\n", 80, 24);
    editor.process_event(Key::Move(Direction::End));
    assert_eq!(cursor(&editor), (2, 0));
    editor.process_event(Key::DeleteForward);
    assert_eq!(rows_of(&editor), vec!["abcd"]);
    assert_eq!(cursor(&editor), (2, 0));
}

#[test]
fn delete_forward_removes_at_cursor() {
    let mut editor = editor_with("abc\n", 80, 24);
    editor.process_event(Key::Move(Direction::Right));
    editor.process_event(Key::DeleteForward);
    assert_eq!(rows_of(&editor), vec!["ac"]);
    assert_eq!(cursor(&editor), (1, 0));
}

#[test]
fn move_right_at_line_end_wraps_to_next_line() {
    let mut editor = editor_with("ab\ncd\n", 80, 24);
    editor.process_event(Key::Move(Direction::End));
    assert_eq!(cursor(&editor), (2, 0));
    editor.process_event(Key::Move(Direction::Right));
    assert_eq!(cursor(&editor), (0, 1));
}

#[test]
fn move_right_at_end_of_last_line_is_noop() {
    let mut editor = editor_with("ab\n", 80, 24);
    editor.process_event(Key::Move(Direction::End));
    assert_eq!(cursor(&editor), (2, 0));
    editor.process_event(Key::Move(Direction::Right));
    assert_eq!(cursor(&editor), (2, 0));
    editor.process_event(Key::Move(Direction::Right));
    assert_eq!(cursor(&editor), (2, 0));
}

#[test]
fn move_right_on_resting_line_stays_put() {
    let mut editor = editor_with("ab\n", 80, 24);
    editor.process_event(Key::Move(Direction::Down));
    assert_eq!(cursor(&editor), (0, 1));
    editor.process_event(Key::Move(Direction::Right));
    assert_eq!(cursor(&editor), (0, 1));
}

#[test]
fn move_left_at_line_start_wraps_to_previous_end() {
    let mut editor = editor_with("abc\nd\n", 80, 24);
    editor.process_event(Key::Move(Direction::Down));
    assert_eq!(cursor(&editor), (0, 1));
    editor.process_event(Key::Move(Direction::Left));
    assert_eq!(cursor(&editor), (3, 0));
}

#[test]
fn vertical_move_clamps_column_to_destination_line() {
    let mut editor = editor_with("abcd\nx\n", 80, 24);
    editor.process_event(Key::Move(Direction::End));
    assert_eq!(cursor(&editor), (4, 0));
    editor.process_event(Key::Move(Direction::Down));
    assert_eq!(cursor(&editor), (1, 1));
}

#[test]
fn home_and_end_move_within_line() {
    let mut editor = editor_with("abcd\n", 80, 24);
    editor.process_event(Key::Move(Direction::End));
    assert_eq!(cursor(&editor), (4, 0));
    editor.process_event(Key::Move(Direction::Home));
    assert_eq!(cursor(&editor), (0, 0));
}

#[test]
fn page_down_moves_one_screen_and_clamps() {
    let mut editor = editor_with("a\nb\nc\nd\ne\nf\n", 80, 2);
    editor.process_event(Key::Move(Direction::PageDown));
    assert_eq!(cursor(&editor), (0, 2));
    editor.process_event(Key::Move(Direction::PageDown));
    assert_eq!(cursor(&editor), (0, 4));
    editor.process_event(Key::Move(Direction::PageDown));
    assert_eq!(cursor(&editor), (0, 6));
    editor.process_event(Key::Move(Direction::PageDown));
    assert_eq!(cursor(&editor), (0, 6));
    editor.process_event(Key::Move(Direction::PageUp));
    assert_eq!(cursor(&editor), (0, 4));
}

#[test]
fn cursor_stays_clamped_over_many_moves() {
    let mut editor = editor_with("abcd\nx\n\nlonger line\n", 7, 3);
    let moves = [
        Direction::End,
        Direction::Down,
        Direction::Down,
        Direction::Right,
        Direction::Up,
        Direction::Left,
        Direction::PageDown,
        Direction::End,
        Direction::PageUp,
        Direction::Down,
    ];
    for d in moves {
        editor.process_event(Key::Move(d));
        let (x, y) = cursor(&editor);
        assert!(y <= editor.document.len());
        let line_len = match editor.document.row(y) {
            Some(row) => row.len(),
            None => 0,
        };
        assert!(x <= line_len);
    }
}

#[test]
fn scroll_keeps_cursor_inside_viewport() {
    let mut editor = editor_with("a\nb\nc\nd\ne\nf\ng\nh\n", 4, 3);
    for _ in 0..6 {
        editor.process_event(Key::Move(Direction::Down));
        let p = editor.screen_cursor_position();
        assert!(p.x < 4);
        assert!(p.y < 3);
    }
    assert_eq!(editor.offset.y, 4);
    for _ in 0..6 {
        editor.process_event(Key::Move(Direction::Up));
        let p = editor.screen_cursor_position();
        assert!(p.y < 3);
    }
    assert_eq!(editor.offset.y, 0);
}

#[test]
fn scroll_is_stable_while_cursor_visible() {
    let mut editor = editor_with("a\nb\nc\nd\n", 10, 4);
    editor.process_event(Key::Move(Direction::Down));
    assert_eq!(editor.offset, Position { x: 0, y: 0 });
}

#[test]
fn text_row_renders_visible_slice() {
    let mut editor = editor_with("abcdef\n", 3, 4);
    assert_eq!(editor.text_row(0), "abc");
    editor.offset = Position { x: 2, y: 0 };
    assert_eq!(editor.text_row(0), "cde");
}

#[test]
fn text_row_past_buffer_is_tilde() {
    let editor = editor_with("ab\n", 10, 5);
    assert_eq!(editor.text_row(1), "~");
    assert_eq!(editor.text_row(4), "~");
}

#[test]
fn text_row_welcome_on_empty_buffer() {
    let editor = editor_with("", 40, 12);
    let banner = editor.text_row(4);
    assert!(banner.starts_with('~'));
    assert!(banner.contains("tedit"));
    assert_eq!(editor.text_row(0), "~");
}

#[test]
fn welcome_banner_is_centered_and_truncated() {
    let editor = editor_with("", 10, 12);
    assert_eq!(editor.text_row(4), "~tedit -- ");
    let wide = editor_with("", 28, 12);
    assert_eq!(wide.text_row(4), "~  tedit -- version 0.1.0");
}

#[test]
fn status_bar_shows_name_and_position() {
    let mut editor = editor_with("ab\ncd\n", 20, 5);
    editor.document.set_file_name(Some("notes.txt".to_string()));
    editor.process_event(Key::Move(Direction::Right));
    let bar = editor.status_bar_text();
    assert_eq!(bar, "notes.txt (1,0)     ");
    assert_eq!(bar.chars().count(), 20);
}

#[test]
fn status_bar_without_name() {
    let editor = editor_with("", 12, 5);
    assert_eq!(editor.status_bar_text(), "[No name] (0");
}

#[test]
fn message_bar_hides_message_after_five_seconds() {
    let mut editor = editor_with("", 80, 5);
    editor.record_save_result(true, 7);
    assert_eq!(editor.message_bar_text(7), "File saved successfully.");
    assert_eq!(editor.message_bar_text(11), "File saved successfully.");
    assert_eq!(editor.message_bar_text(12), "");
}

#[test]
fn save_failure_sets_error_message() {
    let mut editor = editor_with("", 80, 5);
    editor.record_save_result(false, 3);
    assert_eq!(editor.message_bar_text(3), "Error writing file!");
}

#[test]
fn message_bar_truncates_to_width() {
    let mut editor = editor_with("", 5, 5);
    editor.record_save_result(false, 0);
    assert_eq!(editor.message_bar_text(0), "Error");
}

#[test]
fn status_message_from_keeps_text_and_time() {
    let m = StatusMessage::from(String::from("hello"), 9);
    assert_eq!(m.text, "hello");
    assert_eq!(m.time, 9);
}

#[test]
fn clamp_to_buffer_after_external_shrink() {
    let mut editor = editor_with("abcd\nefgh\n", 80, 24);
    editor.process_event(Key::Move(Direction::Down));
    editor.process_event(Key::Move(Direction::End));
    assert_eq!(cursor(&editor), (4, 1));
    editor.document = Document::load("ab\ncd\n");
    editor.clamp_to_buffer();
    assert_eq!(cursor(&editor), (2, 1));
    editor.document = Document::load("x\n");
    editor.clamp_to_buffer();
    assert_eq!(cursor(&editor), (0, 1));
}
