use mdreader::text::{decimal_chars, pad_to, push_box_bottom, push_box_label, push_box_top, truncate_chars};

fn s(v: Vec<char>) -> String {
    v.into_iter().collect()
}

#[test]
fn truncation_keeps_fitting_text() {
    assert_eq!(s(truncate_chars("Database", 8, 1)), "Database");
    assert_eq!(s(truncate_chars("Database", 20, 1)), "Database");
}

#[test]
fn truncation_cuts_with_an_ellipsis() {
    assert_eq!(s(truncate_chars("Database", 5, 1)), "Data\u{2026}");
    assert_eq!(s(truncate_chars("Database", 1, 1)), "\u{2026}");
    assert_eq!(s(truncate_chars("Database", 0, 1)), "");
    // Wide characters take two columns each.
    assert_eq!(s(truncate_chars("日本語テキスト", 5, 1)), "日本\u{2026}");
}

#[test]
fn padding_and_numbers() {
    assert_eq!(s(pad_to("ab", 5)), "ab   ");
    assert_eq!(s(pad_to("abcdef", 3)), "ab\u{2026}");
    assert_eq!(s(decimal_chars(0)), "0");
    assert_eq!(s(decimal_chars(12045)), "12045");
}

#[test]
fn box_drawing_text_is_one_column_per_character() {
    // Box-drawing characters, the pointer and the ellipsis take one column.
    assert_eq!(s(truncate_chars("\u{2500}\u{2500}\u{25BA}ab", 3, 0)), "\u{2500}\u{2500}\u{2026}");
    assert_eq!(s(truncate_chars("\u{250C}\u{2500}\u{2510}", 3, 0)), "\u{250C}\u{2500}\u{2510}");
    assert_eq!(s(pad_to("\u{250C}\u{2500}\u{2510}", 5)), "\u{250C}\u{2500}\u{2510}  ");
    assert_eq!(s(pad_to("a\u{2026}b\u{00B7}c\u{2192}d", 4)), "a\u{2026}b\u{2026}");
}

#[test]
fn box_lines_share_one_length() {
    for (label, iw) in [("Database", 10usize), ("Database", 4), ("x", 1), ("", 3), ("a\u{2500}b", 6)] {
        let mut top = Vec::new();
        let mut mid = Vec::new();
        let mut bot = Vec::new();
        push_box_top(&mut top, iw);
        push_box_label(&mut mid, label, iw);
        push_box_bottom(&mut bot, iw);
        assert_eq!(top.len(), iw + 4);
        assert_eq!(mid.len(), iw + 4, "label {label:?} in {iw} columns: {:?}", s(mid.clone()));
        assert_eq!(bot.len(), iw + 4);
    }
    let mut mid = Vec::new();
    push_box_label(&mut mid, "Database", 4);
    assert_eq!(s(mid), "\u{2502} Dat\u{2026} \u{2502}");
}
