use mdreader::mermaid::block_diagram::{render, Block, BlockDiagram, BlockEdge};

fn block(id: &str) -> Block {
    Block { id: id.to_string(), label: None, col_span: 1 }
}

fn labelled(id: &str, label: &str) -> Block {
    Block { id: id.to_string(), label: Some(label.to_string()), col_span: 1 }
}

fn spanning(id: &str, span: usize) -> Block {
    Block { id: id.to_string(), label: None, col_span: span }
}

fn edge(source: &str, target: &str, label: Option<&str>) -> BlockEdge {
    BlockEdge { source: source.to_string(), target: target.to_string(), label: label.map(|l| l.to_string()) }
}

#[test]
fn renders_single_block() {
    let diag = BlockDiagram { columns: 0, blocks: vec![block("A")], edges: Vec::new() };
    let out = render(&diag, None);
    assert!(out.contains('A'), "block label 'A' must appear in output:\n{out}");
    assert!(out.contains('\u{250C}'), "top-left corner ┌ must appear:\n{out}");
    assert!(out.contains('\u{2518}'), "bottom-right corner ┘ must appear:\n{out}");
}

#[test]
fn renders_blocks_with_text_labels() {
    let diag = BlockDiagram { columns: 2, blocks: vec![labelled("a", "Alpha"), labelled("b", "Beta")], edges: Vec::new() };
    let out = render(&diag, None);
    assert!(out.contains("Alpha"), "Alpha label missing:\n{out}");
    assert!(out.contains("Beta"), "Beta label missing:\n{out}");
}

#[test]
fn renders_edge_summary() {
    let diag = BlockDiagram { columns: 0, blocks: vec![block("A"), block("B")], edges: vec![edge("A", "B", None)] };
    let out = render(&diag, None);
    assert!(out.contains("Edges:"), "Edges: header missing:\n{out}");
    assert!(out.contains('A') && out.contains('B'), "edge endpoints missing:\n{out}");
    assert!(out.contains('\u{25BA}'), "arrow glyph ► missing:\n{out}");
}

#[test]
fn block_diagram_empty_diagram_renders_without_panic() {
    let diag = BlockDiagram::default();
    let out = render(&diag, None);
    assert!(!out.contains('\u{250C}'), "no box should be drawn for empty diagram");
}

#[test]
fn max_width_truncates_long_labels() {
    let diag = BlockDiagram {
        columns: 0,
        blocks: vec![labelled("a", "This is a very long label that overflows")],
        edges: Vec::new(),
    };
    let out = render(&diag, Some(20));
    for line in out.lines() {
        let w = unicode_width::UnicodeWidthStr::width(line);
        assert!(w <= 22, "line width {w} exceeds budget: {line:?}");
    }
}

#[test]
fn spanning_block_renders_wider_box() {
    let diag = BlockDiagram {
        columns: 3,
        blocks: vec![block("a"), spanning("b", 2), block("c"), block("d"), block("e"), block("f")],
        edges: Vec::new(),
    };
    let out = render(&diag, None);
    for id in &["a", "b", "c", "d", "e", "f"] {
        assert!(out.contains(id), "block {id} missing from output:\n{out}");
    }
    let total_corners: usize = out.lines().map(|l| l.chars().filter(|&c| c == '\u{250C}').count()).sum();
    assert!(total_corners >= 6, "expected ≥6 ┌ corners across all rows, got {total_corners}:\n{out}");
    assert!(out.contains("b "), "b label with trailing space missing:\n{out}");
}

#[test]
fn labelled_edge_appears_in_summary() {
    let diag = BlockDiagram {
        columns: 0,
        blocks: vec![block("A"), block("B")],
        edges: vec![edge("A", "B", Some("calls"))],
    };
    let out = render(&diag, None);
    assert!(out.contains("calls"), "edge label 'calls' missing from summary:\n{out}");
}

#[test]
fn multi_row_grid_has_blank_line_separator() {
    let diag = BlockDiagram { columns: 1, blocks: vec![block("A"), block("B"), block("C")], edges: Vec::new() };
    let out = render(&diag, None);
    let blank_lines = out.lines().filter(|l| l.trim().is_empty()).count();
    assert!(blank_lines >= 2, "expected ≥2 blank separator lines, got {blank_lines}:\n{out}");
}

#[test]
fn single_block_exact_box() {
    let diag = BlockDiagram { columns: 1, blocks: vec![block("A")], edges: Vec::new() };
    let out = render(&diag, None);
    assert_eq!(out, "┌───┐\n│ A │\n└───┘");
}

#[test]
fn empty_block_diagram_renders_nothing() {
    assert_eq!(render(&BlockDiagram::default(), None), "");
}

#[test]
fn blockless_diagram_shows_only_edges() {
    let diag = BlockDiagram { columns: 2, blocks: Vec::new(), edges: vec![edge("A", "B", None)] };
    let out = render(&diag, None);
    assert!(out.starts_with("Edges:"), "edge summary expected:\n{out}");
    assert!(!out.contains('\u{250C}'), "no box without blocks:\n{out}");
}

#[test]
fn very_long_label_is_shrunk_to_fit() {
    let label = "x".repeat(300);
    let diag = BlockDiagram { columns: 1, blocks: vec![labelled("a", &label)], edges: Vec::new() };
    let out = render(&diag, Some(20));
    // The budget counts two walls per column; the one-space padding inside
    // each box adds two more columns, as for any block.
    for line in out.lines() {
        let w = unicode_width::UnicodeWidthStr::width(line);
        assert!(w <= 22, "line width {w} exceeds budget: {line:?}");
    }
    assert!(out.lines().any(|l| unicode_width::UnicodeWidthStr::width(l) == 22));
}
