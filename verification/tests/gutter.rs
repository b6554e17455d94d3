use mdreader::ui::gutter::{blank_gutter, gutter_digits, gutter_label, gutter_lines};

#[test]
fn gutter_digit_counts() {
    assert_eq!(gutter_digits(0), 4);
    assert_eq!(gutter_digits(7), 4);
    assert_eq!(gutter_digits(9999), 4);
    assert_eq!(gutter_digits(10000), 5);
    assert_eq!(gutter_digits(u32::MAX), 10);
}

#[test]
fn gutter_cells() {
    assert_eq!(gutter_label(42, 4), "  42 | ");
    assert_eq!(gutter_label(12345, 4), "12345 | ");
    assert_eq!(blank_gutter(4), "     | ");
}

#[test]
fn wrapped_lines_get_blank_continuation_cells() {
    let lines = gutter_lines(9, &vec![1, 3, 0], 4);
    assert_eq!(lines, vec!["   9 | ", "  10 | ", "     | ", "     | ", "  11 | "]);
}
