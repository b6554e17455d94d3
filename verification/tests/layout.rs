use mdreader::ui::layout::{centered_pct, centered_rect, pct_extent, percent_rect, Rect};

#[test]
fn centered_rect_is_centred() {
    let area = Rect { x: 0, y: 0, width: 100, height: 40 };
    let r = centered_rect(20, 10, area);
    assert_eq!(r, Rect { x: 40, y: 15, width: 20, height: 10 });
}

#[test]
fn centered_rect_clamps_to_area() {
    let area = Rect { x: 2, y: 1, width: 10, height: 5 };
    let r = centered_rect(30, 20, area);
    assert_eq!(r, Rect { x: 2, y: 1, width: 10, height: 5 });
}

#[test]
fn percentage_sizes_have_floors() {
    assert_eq!(pct_extent(100, 90, 10), 90);
    assert_eq!(pct_extent(8, 90, 10), 10);
    let area = Rect { x: 0, y: 0, width: 100, height: 50 };
    assert_eq!(centered_pct(90, 90, area), Rect { x: 5, y: 3, width: 90, height: 45 });
    assert_eq!(percent_rect(10, 4, area).width, 20);
    assert_eq!(percent_rect(10, 4, area).height, 4);
}
