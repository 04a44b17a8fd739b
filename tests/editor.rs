use hecto::editor::{Editor, Key, Mode, Position, ScreenRow};
use hecto::terminal::Size;

fn size(width: u16, height: u16) -> Size {
    Size { width, height }
}

#[test]
fn line_break_moves_cursor_to_start_of_new_line() {
    let mut e = Editor::open("t.rs", "ab", size(80, 20));
    e.process_keypress(Key::Char('i'));
    assert_eq!(e.mode(), Mode::Insert);
    e.process_keypress(Key::Right);
    e.process_keypress(Key::Char('\n'));
    assert_eq!(e.cursor_position(), Position { x: 0, y: 1 });
    let d = e.document();
    assert_eq!(d.row(0, false).unwrap().string, "a");
    assert_eq!(d.row(1, false).unwrap().string, "b");
}

#[test]
fn typing_moves_cursor_right() {
    let mut e = Editor::new(hecto::document::Document::default(), size(80, 20));
    e.process_keypress(Key::Char('i'));
    e.process_keypress(Key::Char('h'));
    e.process_keypress(Key::Char('i'));
    assert_eq!(e.cursor_position(), Position { x: 2, y: 0 });
    assert_eq!(e.document().row(0, false).unwrap().string, "hi");
}

#[test]
fn backspace_deletes_previous_character() {
    let mut e = Editor::open("t.rs", "abc", size(80, 20));
    e.process_keypress(Key::Char('l'));
    e.process_keypress(Key::Char('l'));
    e.process_keypress(Key::Char('i'));
    e.process_keypress(Key::Backspace);
    assert_eq!(e.document().row(0, false).unwrap().string, "ac");
    assert_eq!(e.cursor_position(), Position { x: 1, y: 0 });
}

#[test]
fn normal_mode_keys_move_and_quit() {
    let mut e = Editor::open("t.rs", "abc\nd", size(80, 20));
    e.process_keypress(Key::Char('l'));
    e.process_keypress(Key::Char('l'));
    e.process_keypress(Key::Char('j'));
    assert_eq!(e.cursor_position(), Position { x: 1, y: 1 });
    e.process_keypress(Key::Char('k'));
    assert_eq!(e.cursor_position(), Position { x: 1, y: 0 });
    e.process_keypress(Key::Char('h'));
    e.process_keypress(Key::Char('h'));
    assert_eq!(e.cursor_position(), Position { x: 0, y: 0 });
    assert!(!e.should_quit());
    e.process_keypress(Key::Ctrl('q'));
    assert!(e.should_quit());
}

#[test]
fn escape_returns_to_normal_mode() {
    let mut e = Editor::open("t.rs", "a", size(80, 20));
    e.process_keypress(Key::Char('i'));
    e.process_keypress(Key::Esc);
    assert_eq!(e.mode(), Mode::Normal);
    assert_eq!(e.mode().label(), "NORMAL");
    assert_eq!(Mode::Insert.label(), "INSERT");
}

#[test]
fn cursor_reclamps_to_shorter_row() {
    let mut e = Editor::open("t.rs", "abcd\nx", size(80, 20));
    e.process_keypress(Key::Char('i'));
    for _ in 0..4 {
        e.process_keypress(Key::Right);
    }
    e.process_keypress(Key::Right);
    assert_eq!(e.cursor_position(), Position { x: 4, y: 0 });
    e.process_keypress(Key::Down);
    assert_eq!(e.cursor_position(), Position { x: 1, y: 1 });
    e.process_keypress(Key::Down);
    assert_eq!(e.cursor_position(), Position { x: 0, y: 2 });
    e.process_keypress(Key::Down);
    assert_eq!(e.cursor_position(), Position { x: 0, y: 2 });
}

#[test]
fn scroll_follows_cursor_and_is_idempotent() {
    let text: Vec<String> = (0..30).map(|i| format!("line {i}")).collect();
    let mut e = Editor::open("t.rs", &text.join("\n"), size(80, 10));
    for _ in 0..15 {
        e.process_keypress(Key::Char('j'));
    }
    assert_eq!(e.cursor_position().y, 15);
    assert_eq!(e.offset(), Position { x: 0, y: 6 });
    e.scroll();
    assert_eq!(e.offset(), Position { x: 0, y: 6 });
    for _ in 0..12 {
        e.process_keypress(Key::Char('k'));
    }
    assert_eq!(e.offset(), Position { x: 0, y: 3 });
    e.scroll();
    assert_eq!(e.offset(), Position { x: 0, y: 3 });
    assert_eq!(e.cursor_on_screen(), Position { x: 0, y: 0 });
}

#[test]
fn scroll_follows_cursor_horizontally() {
    let mut e = Editor::open("t.rs", "abcdefghij", size(4, 10));
    for _ in 0..6 {
        e.process_keypress(Key::Char('l'));
    }
    assert_eq!(e.offset(), Position { x: 3, y: 0 });
    assert_eq!(e.cursor_on_screen(), Position { x: 3, y: 0 });
}

#[test]
fn screen_rows_show_lines_banner_and_filler() {
    let e = Editor::open("t.rs", "a\nb", size(80, 9));
    assert_eq!(e.screen_row(0), ScreenRow::Line(0));
    assert_eq!(e.screen_row(1), ScreenRow::Line(1));
    assert_eq!(e.screen_row(3), ScreenRow::Tilde);
    let empty = Editor::new(hecto::document::Document::default(), size(80, 9));
    assert_eq!(empty.screen_row(4), ScreenRow::Welcome);
    assert_eq!(empty.screen_row(3), ScreenRow::Tilde);
    assert_eq!(empty.screen_row(5), ScreenRow::Tilde);
}

#[test]
fn status_bar_shows_mode_name_and_position() {
    let e = Editor::open("t.rs", "a\nb", size(30, 9));
    let bar = e.draw_status_bar();
    assert_eq!(bar, "[NORMAL] Editing: t.rs 1/2    ");
    let unnamed = Editor::new(hecto::document::Document::default(), size(10, 9));
    assert_eq!(unnamed.draw_status_bar(), "[NORMAL] Editing: [No Name] 1/0");
}

#[test]
fn welcome_message_is_centred_and_cut() {
    let e = Editor::new(hecto::document::Document::default(), size(40, 9));
    let msg = e.draw_welcome_message("0.1.0");
    assert_eq!(msg, "~    Hecto editor -- version 0.1.0");
    let narrow = Editor::new(hecto::document::Document::default(), size(10, 9));
    assert_eq!(narrow.draw_welcome_message("0.1.0"), "~Hecto edi");
}

#[test]
fn line_labels_are_left_aligned() {
    assert_eq!(Editor::line_label(7), "7   ");
    assert_eq!(Editor::line_label(0), "0   ");
    assert_eq!(Editor::line_label(12345), "12345");
}

#[test]
fn draw_row_renders_the_visible_window() {
    let e = Editor::open("t.rs", "abcdefgh", size(8, 9));
    assert_eq!(e.draw_row(0), "abc\x1b[39m");
    assert_eq!(e.draw_row(4), "\x1b[39m");
}

#[test]
fn backspace_at_line_start_moves_up() {
    let mut e = Editor::open("t.rs", "ab\n", size(80, 20));
    e.process_keypress(Key::Char('j'));
    e.process_keypress(Key::Char('i'));
    e.process_keypress(Key::Backspace);
    assert_eq!(e.cursor_position(), Position { x: 0, y: 0 });
    assert_eq!(e.document().len(), 1);
}
