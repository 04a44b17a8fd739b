use hecto::document::Document;
use hecto::editor::Position;

fn lines(d: &Document) -> Vec<String> {
    (0..d.len()).map(|i| d.row(i, false).unwrap().string).collect()
}

fn strip_escapes(s: &str) -> String {
    let mut out = String::new();
    let mut chars = s.chars();
    while let Some(c) = chars.next() {
        if c == '\x1b' {
            for d in chars.by_ref() {
                if d == 'm' {
                    break;
                }
            }
        } else {
            out.push(c);
        }
    }
    out
}

#[test]
fn insert_into_empty_document() {
    let mut d = Document::default();
    assert!(d.is_empty());
    d.insert(&Position { x: 0, y: 0 }, 'a');
    assert_eq!(d.row(0, false).unwrap().render(0, 10), "a");
    assert_eq!(d.len(), 1);
}

#[test]
fn line_break_splits_row() {
    let mut d = Document::open("t.rs", "ab");
    d.insert_nl(&Position { x: 1, y: 0 });
    assert_eq!(lines(&d), vec!["a", "b"]);
}

#[test]
fn delete_removes_empty_row_without_merge() {
    let mut d = Document::open("t.rs", "x\n\n");
    assert_eq!(lines(&d), vec!["x", ""]);
    d.delete(&Position { x: 0, y: 1 });
    assert_eq!(lines(&d), vec!["x"]);
}

#[test]
fn delete_at_column_zero_of_non_empty_row_does_not_merge() {
    let mut d = Document::open("t.rs", "ab\ncd");
    d.delete(&Position { x: 0, y: 1 });
    assert_eq!(lines(&d), vec!["ab", "d"]);
}

#[test]
fn break_then_delete_restores_row_count() {
    let mut d = Document::open("t.rs", "one\ntwo");
    d.insert_nl(&Position { x: 3, y: 0 });
    assert_eq!(lines(&d), vec!["one", "", "two"]);
    assert!(d.row(1, false).unwrap().is_empty());
    d.delete(&Position { x: 0, y: 1 });
    assert_eq!(lines(&d), vec!["one", "two"]);
}

#[test]
fn line_break_at_end_appends_empty_row() {
    let mut d = Document::open("t.rs", "a");
    d.insert_nl(&Position { x: 0, y: 1 });
    assert_eq!(lines(&d), vec!["a", ""]);
    d.insert_nl(&Position { x: 0, y: 5 });
    assert_eq!(d.len(), 2);
}

#[test]
fn delete_past_last_row_is_a_no_op() {
    let mut d = Document::open("t.rs", "a");
    d.delete(&Position { x: 0, y: 1 });
    assert_eq!(lines(&d), vec!["a"]);
}

#[test]
fn open_splits_lines_like_str_lines() {
    let d = Document::open("t.rs", "a\r\nb\n\nc\n");
    assert_eq!(lines(&d), vec!["a", "b", "", "c"]);
    assert!(Document::open("t.rs", "").is_empty());
    assert_eq!(lines(&Document::open("t.rs", "a\r")), vec!["a\r"]);
    assert_eq!(lines(&Document::open("t.rs", "a\r\n")), vec!["a"]);
    assert_eq!(d.display_name().as_deref(), Some("t.rs"));
}

#[test]
fn row_len_counts_columns() {
    let d = Document::open("t.rs", "e\u{301}x\n");
    assert_eq!(d.row_len(0), 2);
    assert_eq!(d.row_len(1), 0);
    assert!(d.row(1, false).is_none());
}

#[test]
fn overlay_text_matches_document_after_edits() {
    let mut d = Document::open("t.rs", "fn main() {\n    let x = \"hi\";\n}");
    d.insert(&Position { x: 2, y: 0 }, 'z');
    d.insert_nl(&Position { x: 4, y: 1 });
    d.delete(&Position { x: 0, y: 0 });
    d.insert(&Position { x: 0, y: d.len() }, '1');
    let shown: Vec<String> = (0..d.len())
        .map(|i| strip_escapes(&d.row(i, true).unwrap().string))
        .collect();
    assert_eq!(shown.join("\n"), lines(&d).join("\n"));
}

#[test]
fn render_paints_keywords_and_resets() {
    let d = Document::open("t.rs", "let x = 5;");
    let out = d.render(0, 0, 100);
    assert!(out.starts_with("\x1b[38;5;1mlet"));
    assert!(out.ends_with("\x1b[39m"));
    assert_eq!(strip_escapes(&out), "let x = 5;");
}

#[test]
fn render_window_never_cuts_a_cluster() {
    let d = Document::open("t.rs", "a\u{301}🇫🇷\tb");
    for start in 0..6 {
        for end in start..7 {
            let plain = strip_escapes(&d.render(0, start, end));
            let row = d.row(0, false).unwrap().render(start, end);
            assert_eq!(plain, row);
        }
    }
}

#[test]
fn render_missing_line_is_a_reset() {
    let d = Document::open("t.rs", "a");
    assert_eq!(d.render(5, 0, 10), "\x1b[39m");
}

#[test]
fn row_past_the_end_is_none_either_way() {
    let d = Document::default();
    assert!(d.row(0, true).is_none());
    assert!(d.row(0, false).is_none());
    let d = Document::open("t.rs", "let a = 1;");
    assert!(d.row(1, true).is_none());
    let colored = d.row(0, true).unwrap().string;
    assert!(colored.starts_with("\x1b[38;5;1mlet"));
    assert_eq!(strip_escapes(&colored), "let a = 1;");
}
