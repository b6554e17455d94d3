use mdreader::ui::outline_picker::{
    handle_key, popup_size, scroll_offset, HeadingAnchor, OutlineEntry, OutlinePickerState, PickerKey,
};

fn picker_from_raw(entries: &[(&str, u32, u8)]) -> OutlinePickerState {
    let entries = entries
        .iter()
        .map(|(slug, line, level)| OutlineEntry { label: slug.replace('-', " "), level: *level, line: *line })
        .collect();
    OutlinePickerState { entries, cursor: 0 }
}

#[test]
fn state_built_from_blocks_lists_every_heading() {
    let picker = picker_from_raw(&[("introduction", 0, 1), ("background", 5, 2), ("results", 12, 2)]);
    assert_eq!(picker.entries.len(), 3);
    assert_eq!(picker.entries[0].label, "introduction");
    assert_eq!(picker.entries[1].label, "background");
    assert_eq!(picker.entries[2].label, "results");
}

#[test]
fn entries_carry_line_number_for_jump() {
    let picker = picker_from_raw(&[("first-heading", 0, 1), ("second-heading", 7, 2), ("third-heading", 15, 3)]);
    assert_eq!(picker.entries[0].line, 0);
    assert_eq!(picker.entries[1].line, 7);
    assert_eq!(picker.entries[2].line, 15);
}

#[test]
fn cursor_moves_with_jk_clamped_to_bounds() {
    let mut picker = picker_from_raw(&[("a", 0, 1), ("b", 3, 2), ("c", 6, 3)]);
    picker.move_down();
    picker.move_down();
    assert_eq!(picker.cursor, 2);
    picker.move_down();
    assert_eq!(picker.cursor, 2, "cursor must clamp at last entry");
    picker.move_up();
    picker.move_up();
    assert_eq!(picker.cursor, 0);
    picker.move_up();
    assert_eq!(picker.cursor, 0, "cursor must clamp at first entry");
}

#[test]
fn empty_doc_produces_zero_entries() {
    let picker = picker_from_raw(&[]);
    assert_eq!(picker.entries.len(), 0);
}

#[test]
fn display_prefix_matches_level() {
    let e1 = OutlineEntry { label: "x".into(), level: 1, line: 0 };
    let e2 = OutlineEntry { label: "x".into(), level: 2, line: 0 };
    let e3 = OutlineEntry { label: "x".into(), level: 3, line: 0 };
    assert_eq!(e1.display_prefix(), "# ");
    assert_eq!(e2.display_prefix(), "  ## ");
    assert_eq!(e3.display_prefix(), "    ### ");
}

#[test]
fn build_turns_slugs_into_labels() {
    let heads = vec![
        HeadingAnchor { anchor: "first-heading".to_string(), level: 1, line: 0 },
        HeadingAnchor { anchor: "second-one".to_string(), level: 2, line: 9 },
    ];
    let picker = OutlinePickerState::build(Some(&heads)).expect("active tab");
    assert_eq!(picker.cursor, 0);
    assert_eq!(picker.entries[0].label, "first heading");
    assert_eq!((picker.entries[1].label.as_str(), picker.entries[1].level, picker.entries[1].line), ("second one", 2, 9));
    assert!(OutlinePickerState::build(None).is_none());
}

#[test]
fn keys_move_jump_and_dismiss() {
    let mut p = Some(picker_from_raw(&[("a", 0, 1), ("b", 3, 2), ("c", 6, 3)]));
    assert_eq!(handle_key(&mut p, PickerKey::Char('j')), (true, None));
    assert_eq!(handle_key(&mut p, PickerKey::Down), (true, None));
    assert_eq!(p.as_ref().unwrap().cursor, 2);
    assert_eq!(handle_key(&mut p, PickerKey::Char('k')), (true, None));
    assert_eq!(p.as_ref().unwrap().cursor, 1);
    assert_eq!(handle_key(&mut p, PickerKey::Char('x')), (true, None));
    assert_eq!(p.as_ref().unwrap().cursor, 1);
    assert_eq!(handle_key(&mut p, PickerKey::Enter), (false, Some(3)));
    assert!(p.is_none());
    let mut q = Some(picker_from_raw(&[("a", 0, 1)]));
    assert_eq!(handle_key(&mut q, PickerKey::Char('o')), (false, None));
    assert!(q.is_none());
    let mut r = Some(picker_from_raw(&[("a", 0, 1)]));
    assert_eq!(handle_key(&mut r, PickerKey::Esc), (false, None));
    assert!(r.is_none());
}

#[test]
fn popup_geometry_and_scrolling() {
    assert_eq!(popup_size(3, 100, 40), (72, 5));
    assert_eq!(popup_size(0, 30, 40), (28, 3));
    assert_eq!(popup_size(50, 80, 20), (72, 18));
    assert_eq!(scroll_offset(2, 5), 0);
    assert_eq!(scroll_offset(7, 5), 3);
}

#[test]
fn visible_rows_follow_the_cursor() {
    let mut p = picker_from_raw(&[("a", 0, 1), ("b", 3, 2), ("c", 6, 3), ("d", 9, 1)]);
    p.cursor = 3;
    let rows = p.visible_rows(2);
    assert_eq!(rows.len(), 2);
    assert_eq!((rows[0].bullet.as_str(), rows[0].prefix.as_str(), rows[0].label.as_str(), rows[0].is_cursor), ("   ", "    ### ", "c", false));
    assert_eq!((rows[1].bullet.as_str(), rows[1].prefix.as_str(), rows[1].label.as_str(), rows[1].is_cursor), (" > ", "# ", "d", true));
}
