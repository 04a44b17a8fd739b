use hecto::row::Row;

fn text(r: &Row) -> String {
    r.string.clone()
}

#[test]
fn length_counts_grapheme_clusters() {
    let r = Row::from_str("he\u{301}llo 🇫🇷");
    assert_eq!(r.len(), 7);
    assert!(!r.is_empty());
    assert!(Row::from_str("").is_empty());
    assert_eq!(Row::default().len(), 0);
}

#[test]
fn split_then_join_gives_row_back() {
    let original = "ae\u{301}b🇫🇷c";
    let n = Row::from_str(original).len();
    for i in 0..=n {
        let mut left = Row::from_str(original);
        let right = left.split(i);
        assert_eq!(format!("{}{}", text(&left), text(&right)), original);
        assert_eq!(left.len() + right.len(), n);
    }
}

#[test]
fn split_keeps_clusters_whole() {
    let mut left = Row::from_str("ae\u{301}b");
    let right = left.split(2);
    assert_eq!(text(&left), "ae\u{301}");
    assert_eq!(text(&right), "b");
}

#[test]
fn split_past_end_leaves_empty_remainder() {
    let mut left = Row::from_str("ab");
    let right = left.split(9);
    assert_eq!(text(&left), "ab");
    assert!(right.is_empty());
}

#[test]
fn insert_then_delete_restores_row() {
    let original = "añb\tc";
    let n = Row::from_str(original).len();
    for i in 0..n {
        let mut r = Row::from_str(original);
        r.insert(i, 'x');
        assert_eq!(r.len(), n + 1);
        r.delete(i);
        assert_eq!(text(&r), original);
        assert_eq!(r.len(), n);
    }
}

#[test]
fn insert_splices_between_clusters() {
    let mut r = Row::from_str("e\u{301}b");
    r.insert(1, 'x');
    assert_eq!(text(&r), "e\u{301}xb");
    assert_eq!(r.len(), 3);
}

#[test]
fn insert_past_end_appends() {
    let mut r = Row::from_str("ab");
    r.insert(7, 'c');
    assert_eq!(text(&r), "abc");
    assert_eq!(r.len(), 3);
}

#[test]
fn delete_past_end_is_a_no_op() {
    let mut r = Row::from_str("ab");
    r.delete(2);
    assert_eq!(text(&r), "ab");
    let mut e = Row::from_str("");
    e.delete(0);
    assert!(e.is_empty());
}

#[test]
fn delete_removes_a_whole_cluster() {
    let mut r = Row::from_str("ae\u{301}b");
    r.delete(1);
    assert_eq!(text(&r), "ab");
    assert_eq!(r.len(), 2);
}

#[test]
fn render_window_keeps_clusters_and_expands_tabs() {
    let r = Row::from_str("a\u{301}b🇫🇷\tc");
    assert_eq!(r.render(1, 3), "b🇫🇷");
    assert_eq!(r.render(0, 100), "a\u{301}b🇫🇷    c");
    assert_eq!(r.render(3, 4), "    ");
}

#[test]
fn render_clamps_start_and_end() {
    let r = Row::from_str("abc");
    assert_eq!(r.render(5, 2), "");
    assert_eq!(r.render(2, 99), "c");
    assert_eq!(r.render(9, 99), "");
}

#[test]
fn update_len_recomputes_the_count() {
    let mut r = Row::from_str("ab");
    r.string.push('c');
    r.update_len();
    assert_eq!(r.len(), 3);
}

#[test]
fn from_char_holds_one_cluster() {
    let r = Row::from_char('ß');
    assert_eq!(text(&r), "ß");
    assert_eq!(r.len(), 1);
    assert_eq!(r.text(), "ß");
}
