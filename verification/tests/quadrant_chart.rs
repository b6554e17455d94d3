use mdreader::mermaid::quadrant_chart::{
    geometry, point_to_grid, render, PlacedPoint, QuadrantAxis, QuadrantChart, QuadrantLabels, CANVAS_ROWS,
};

/// Scale a point in the unit square onto the canvas of `max_width`, the way
/// the application does before rendering.
fn place(name: &str, x: f64, y: f64, max_width: Option<usize>) -> PlacedPoint {
    let g = geometry(max_width);
    let (x_left, x_offset) = if x < 0.5 {
        (true, ((x / 0.5) * g.left_span as f64) as usize)
    } else {
        (false, (((x - 0.5) / 0.5) * g.right_span as f64) as usize)
    };
    let (y_top, y_offset) = if y >= 0.5 {
        (true, (((1.0 - y) / 0.5) * g.top_span as f64) as usize)
    } else {
        (false, (((0.5 - y) / 0.5) * g.bottom_span as f64) as usize)
    };
    PlacedPoint { x_left, x_offset, y_top, y_offset, label: format!(" {} ({:.2},{:.2})", name, x, y) }
}

fn canonical(max_width: Option<usize>) -> QuadrantChart {
    let pts = [
        ("Campaign A", 0.3, 0.6),
        ("Campaign B", 0.45, 0.23),
        ("Campaign C", 0.57, 0.69),
        ("Campaign D", 0.78, 0.34),
        ("Campaign E", 0.40, 0.34),
        ("Campaign F", 0.35, 0.78),
    ];
    QuadrantChart {
        title: Some("Reach and engagement of campaigns".to_string()),
        x_axis: Some(QuadrantAxis { low: "Low Reach".to_string(), high: "High Reach".to_string() }),
        y_axis: Some(QuadrantAxis { low: "Low Engagement".to_string(), high: "High Engagement".to_string() }),
        quadrants: QuadrantLabels {
            q1: Some("We should expand".to_string()),
            q2: Some("Need to promote".to_string()),
            q3: Some("Re-evaluate".to_string()),
            q4: Some("May be improved".to_string()),
        },
        points: pts.iter().map(|(n, x, y)| place(n, *x, *y, max_width)).collect(),
    }
}

#[test]
fn title_appears_in_output() {
    let out = render(&canonical(None), None);
    assert!(out.contains("Reach and engagement of campaigns"), "title missing from output:\n{out}");
}

#[test]
fn quadrant_labels_appear_in_correct_corners() {
    let out = render(&canonical(None), None);
    assert!(out.contains("We should expand"), "Q1 label missing:\n{out}");
    assert!(out.contains("Need to promote"), "Q2 label missing:\n{out}");
    assert!(out.contains("Re-evaluate"), "Q3 label missing:\n{out}");
    assert!(out.contains("May be improved"), "Q4 label missing:\n{out}");
    let q1_line = out.lines().find(|l| l.contains("We should expand")).expect("Q1 line missing");
    let q2_line = out.lines().find(|l| l.contains("Need to promote")).expect("Q2 line missing");
    assert_eq!(q1_line, q2_line, "Q1 and Q2 labels should be on the same line");
    let q3_line = out.lines().find(|l| l.contains("Re-evaluate")).expect("Q3 line missing");
    let q4_line = out.lines().find(|l| l.contains("May be improved")).expect("Q4 line missing");
    assert_eq!(q3_line, q4_line, "Q3 and Q4 labels should be on the same line");
    let q1_line_no = out.lines().position(|l| l.contains("We should expand")).unwrap();
    let q3_line_no = out.lines().position(|l| l.contains("Re-evaluate")).unwrap();
    assert!(q1_line_no < q3_line_no, "top quadrant labels ({q1_line_no}) must precede bottom ({q3_line_no})");
}

#[test]
fn points_render_inside_canvas() {
    let out = render(&canonical(Some(80)), Some(80));
    for name in &["Campaign A", "Campaign B", "Campaign C", "Campaign D"] {
        assert!(out.contains(name), "point {name:?} missing from output:\n{out}");
    }
    assert!(out.contains('\u{253C}'), "cross glyph ┼ missing:\n{out}");
}

#[test]
fn axis_labels_appear_on_outer_edges() {
    let out = render(&canonical(None), None);
    let x_axis_line = out.lines().find(|l| l.contains('\u{253C}')).expect("x-axis line with ┼ not found");
    assert!(x_axis_line.contains("Low Reach") || out.contains("Low Reach"), "Low Reach axis label missing");
    assert!(x_axis_line.contains("High Reach") || out.contains("High Reach"), "High Reach axis label missing");
    assert!(out.contains("High Engagement"), "High Engagement y-axis label missing");
    assert!(out.contains("Low Engagement"), "Low Engagement y-axis label missing");
    let high_eng_line = out.lines().position(|l| l.contains("High Engagement")).expect("High Engagement line not found");
    let arrow_line = out.lines().position(|l| l.contains('^')).expect("^ arrow line not found");
    assert!(high_eng_line < arrow_line, "High Engagement ({high_eng_line}) must precede ^ arrow ({arrow_line})");
}

#[test]
fn empty_chart_renders_without_panic() {
    let chart = QuadrantChart::default();
    let out = render(&chart, None);
    assert!(out.contains('\u{253C}') || out.contains('\u{2502}') || out.contains('^'));
}

#[test]
fn geometry_of_default_canvas() {
    let g = geometry(None);
    assert_eq!(g.canvas_width, 70);
    assert_eq!(g.center_col, 35);
    assert_eq!(g.mid_row, 10);
    assert_eq!(g.left_span, 34);
    assert_eq!(g.right_span, 32);
    assert_eq!(g.top_span, 7);
    assert_eq!(g.bottom_span, 7);
    assert_eq!(geometry(Some(10)).canvas_width, 30);
}

#[test]
fn point_grid_cells() {
    // Top-left corner of the canvas: column 0, first body row below the label row.
    let p = PlacedPoint { x_left: true, x_offset: 0, y_top: true, y_offset: 0, label: String::new() };
    assert_eq!(point_to_grid(&p, 35, 10, CANVAS_ROWS), (0, 2));
    // Right half starts two columns past the axis; bottom half two rows below it.
    let q = PlacedPoint { x_left: false, x_offset: 3, y_top: false, y_offset: 1, label: String::new() };
    assert_eq!(point_to_grid(&q, 35, 10, CANVAS_ROWS), (40, 13));
}

#[test]
fn left_quadrant_labels_end_two_columns_before_the_axis() {
    let out = render(&canonical(None), None);
    let line: Vec<char> = out.lines().find(|l| l.contains("Need to promote")).unwrap().chars().collect();
    let label: Vec<char> = "Need to promote".chars().collect();
    let start = (0..line.len()).find(|&i| line[i..].starts_with(&label)).unwrap();
    // The default canvas has its axis at column 35; the label ends at 33.
    assert_eq!(start + label.len() - 1, 33);
    assert_eq!(line[35], '\u{2502}');
}
