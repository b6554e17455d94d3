use mdreader::mermaid::sugiyama::{
    dag_inputs, place_nodes, sugiyama_layout, Direction, Graph, IrNode, LayoutConfig, LayoutEdge, LayoutNode,
};

fn node(id: &str) -> LayoutNode {
    LayoutNode { id: id.to_string(), width: id.chars().count() + 4, height: 3 }
}

fn edge(from: &str, to: &str) -> LayoutEdge {
    LayoutEdge { from: from.to_string(), to: to.to_string(), label: None }
}

fn config() -> LayoutConfig {
    LayoutConfig { layer_gap: 6, node_gap: 2 }
}

fn pos(out: &mdreader::mermaid::sugiyama::LayoutResult, id: &str) -> (usize, usize) {
    out.position(&id.to_string()).expect("node placed")
}

#[test]
fn empty_graph_returns_empty() {
    let g = Graph { direction: Direction::TopToBottom, nodes: Vec::new(), edges: Vec::new() };
    let out = sugiyama_layout(&g, &config());
    assert!(out.positions.is_empty());
}

#[test]
fn simple_chain_lr() {
    let g = Graph {
        direction: Direction::LeftToRight,
        nodes: vec![node("A"), node("B"), node("C")],
        edges: vec![edge("A", "B"), edge("B", "C")],
    };
    let out = sugiyama_layout(&g, &config());
    assert!(pos(&out, "A").0 < pos(&out, "B").0);
    assert!(pos(&out, "B").0 < pos(&out, "C").0);
}

#[test]
fn architecture_case_has_4_distinct_layers() {
    let g = Graph {
        direction: Direction::LeftToRight,
        nodes: vec![node("App"), node("DB"), node("Cache"), node("Queue"), node("Worker")],
        edges: vec![edge("App", "DB"), edge("App", "Cache"), edge("App", "Queue"), edge("Queue", "Worker"), edge("Worker", "DB")],
    };
    let out = sugiyama_layout(&g, &config());
    let app_col = pos(&out, "App").0;
    let cache_col = pos(&out, "Cache").0;
    let queue_col = pos(&out, "Queue").0;
    let worker_col = pos(&out, "Worker").0;
    let db_col = pos(&out, "DB").0;
    assert!(app_col < cache_col, "App should precede Cache: {app_col} < {cache_col}");
    assert_eq!(cache_col, queue_col, "Cache and Queue share a layer");
    assert!(queue_col < worker_col, "Worker is its own layer");
    assert!(worker_col < db_col, "DB is the rightmost layer");
}

#[test]
fn diamond_no_crossings() {
    let g = Graph {
        direction: Direction::TopToBottom,
        nodes: vec![node("A"), node("B"), node("C"), node("D")],
        edges: vec![edge("A", "B"), edge("A", "C"), edge("B", "D"), edge("C", "D")],
    };
    let out = sugiyama_layout(&g, &config());
    assert!(pos(&out, "A").1 < pos(&out, "B").1);
    assert!(pos(&out, "A").1 < pos(&out, "C").1);
    assert!(pos(&out, "B").1 < pos(&out, "D").1);
    assert!(pos(&out, "C").1 < pos(&out, "D").1);
    assert_eq!(pos(&out, "B").1, pos(&out, "C").1);
}

#[test]
fn bottom_to_top_puts_sources_last() {
    let g = Graph {
        direction: Direction::BottomToTop,
        nodes: vec![node("A"), node("B")],
        edges: vec![edge("A", "B")],
    };
    let out = sugiyama_layout(&g, &config());
    assert!(pos(&out, "A").1 > pos(&out, "B").1);
}

#[test]
fn inputs_swap_sizes_for_left_right_flows() {
    let g = Graph {
        direction: Direction::RightToLeft,
        nodes: vec![LayoutNode { id: "A".to_string(), width: 7, height: 3 }, node("B")],
        edges: vec![edge("A", "B"), edge("A", "missing")],
    };
    let (nodes, edges) = dag_inputs(&g);
    assert_eq!(nodes.len(), 2);
    assert_eq!((nodes[0].id, nodes[0].width, nodes[0].height), (1, 3, 7));
    assert_eq!(nodes[1].id, 2);
    assert_eq!(edges.len(), 1);
    assert_eq!((edges[0].from, edges[0].to), (1, 2));
}

#[test]
fn placement_transposes_offsets_and_mirrors() {
    let ids = vec!["A".to_string(), "B".to_string()];
    let ir = vec![
        IrNode { id: 1, x: 4, y: 0, level: 0, dummy: false },
        IrNode { id: 9, x: 1, y: 1, level: 1, dummy: true },
        IrNode { id: 2, x: 0, y: 3, level: 1, dummy: false },
    ];
    // Left to right: (col, row) = (y, x), pushed (6 - 3) * level along the columns.
    let lr = place_nodes(Direction::LeftToRight, 6, &ids, &ir);
    let got: Vec<(String, usize, usize)> = lr.positions.iter().map(|p| (p.id.clone(), p.col, p.row)).collect();
    assert_eq!(got, vec![("A".to_string(), 0, 4), ("B".to_string(), 6, 0)]);
    // Right to left mirrors the columns.
    let rl = place_nodes(Direction::RightToLeft, 6, &ids, &ir);
    let got: Vec<(String, usize, usize)> = rl.positions.iter().map(|p| (p.id.clone(), p.col, p.row)).collect();
    assert_eq!(got, vec![("A".to_string(), 6, 4), ("B".to_string(), 0, 0)]);
    // Top to bottom keeps (x, y) and pushes rows.
    let tb = place_nodes(Direction::TopToBottom, 6, &ids, &ir);
    let got: Vec<(String, usize, usize)> = tb.positions.iter().map(|p| (p.id.clone(), p.col, p.row)).collect();
    assert_eq!(got, vec![("A".to_string(), 4, 0), ("B".to_string(), 0, 6)]);
}
