use mdreader::mermaid::sankey::{render, Sankey, SankeyFlow};

fn flow(source: &str, target: &str, value: f64) -> SankeyFlow {
    SankeyFlow { source: source.to_string(), target: target.to_string(), value: format!("{:.1}", value) }
}

fn canonical() -> Sankey {
    Sankey {
        flows: vec![
            flow("Agricultural 'waste'", "Bio-conversion", 124.729),
            flow("Bio-conversion", "Liquid", 0.597),
            flow("Bio-conversion", "Solid", 280.322),
            flow("Coal imports", "Coal", 11.606),
            flow("Coal", "Solid", 75.571),
        ],
    }
}

#[test]
fn source_nodes_appear_as_headers() {
    let out = render(&canonical(), None);
    assert!(out.contains("Bio-conversion"), "Bio-conversion header missing:\n{out}");
    assert!(out.contains("Coal imports"), "Coal imports header missing:\n{out}");
    assert!(out.contains("Coal\n"), "Coal header missing:\n{out}");
}

#[test]
fn arrow_glyphs_present() {
    let out = render(&canonical(), None);
    assert!(out.contains('\u{25BA}'), "arrowhead glyph missing:\n{out}");
    assert!(out.contains('\u{2500}'), "shaft glyph missing:\n{out}");
}

#[test]
fn all_target_names_appear_in_output() {
    let out = render(&canonical(), None);
    for name in &["Liquid", "Solid", "Coal"] {
        assert!(out.contains(name), "target {name:?} missing from output:\n{out}");
    }
}

#[test]
fn values_appear_in_output() {
    let out = render(&canonical(), None);
    assert!(out.contains("124.7"), "124.7 value missing from output:\n{out}");
    assert!(out.contains("0.6"), "0.6 value missing from output:\n{out}");
    assert!(out.contains("280.3"), "280.3 value missing from output:\n{out}");
}

#[test]
fn empty_sankey_renders_placeholder() {
    let out = render(&Sankey::default(), None);
    assert!(out.contains("empty"), "empty placeholder missing:\n{out}");
}

#[test]
fn max_width_truncates_long_names() {
    let diag = Sankey { flows: vec![flow("A Very Long Source Node Name That Exceeds Eighty Columns", "B", 10.0)] };
    let out = render(&diag, Some(40));
    for line in out.lines() {
        let w = unicode_width::UnicodeWidthStr::width(line);
        assert!(w <= 40, "line exceeds max_width=40 (w={w}): {line:?}");
    }
}

#[test]
fn single_flow_round_trip() {
    let diag = Sankey { flows: vec![flow("Source", "Target", 42.5)] };
    let out = render(&diag, None);
    assert!(out.contains("Source"), "source missing");
    assert!(out.contains("Target"), "target missing");
    assert!(out.contains("42.5"), "value missing");
}

#[test]
fn empty_sankey_exact_placeholder() {
    assert_eq!(render(&Sankey::default(), None), "(empty sankey diagram)");
}

#[test]
fn sources_listed_once_in_first_seen_order() {
    let out = render(&canonical(), None);
    let headers: Vec<&str> = out.lines().filter(|l| !l.starts_with(' ') && !l.is_empty()).collect();
    assert_eq!(headers, vec!["Agricultural 'waste'", "Bio-conversion", "Coal imports", "Coal"]);
}

#[test]
fn arrowheads_line_up_with_shaft_padding() {
    let out = render(&canonical(), None);
    assert!(out.contains("  ──[0.6]────► Liquid"), "padded arc missing:\n{out}");
    assert!(out.contains("  ──[280.3]──► Solid"), "widest arc missing:\n{out}");
    assert!(out.contains("  ──[11.6]───► Coal"), "mid arc missing:\n{out}");
}

#[test]
fn arc_lines_are_clamped_even_with_a_wide_value() {
    let diag = Sankey {
        flows: vec![SankeyFlow {
            source: "S".to_string(),
            target: "T".to_string(),
            value: "12345678901234567890123456789.0".to_string(),
        }],
    };
    let out = render(&diag, Some(20));
    for line in out.lines() {
        let w = unicode_width::UnicodeWidthStr::width(line);
        assert!(w <= 20, "line exceeds max_width=20 (w={w}): {line:?}");
    }
}

#[test]
fn every_line_fits_the_smallest_budget() {
    let diag = Sankey {
        flows: vec![
            flow("A Very Long Source Node Name", "An Equally Long Target Node Name", 1234567.5),
            flow("A Very Long Source Node Name", "T", 1.0),
            flow("S", "Another Long Target Name", 2.0),
        ],
    };
    for budget in [Some(0usize), Some(20), Some(33), Some(41), None] {
        let out = render(&diag, budget);
        let limit = match budget {
            Some(w) if w > 20 => w,
            Some(_) => 20,
            None => 80,
        };
        for line in out.lines() {
            assert!(line.chars().count() <= limit, "line longer than {limit}: {line:?}");
        }
    }
}
