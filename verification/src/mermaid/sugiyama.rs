//! Sugiyama layout through the `ascii-dag` crate.
//!
//! `ascii-dag` lays a graph out top-down (`y` is the depth, `x` the position
//! within a level). For left-right flows the graph is handed over with each
//! node's width and height swapped and the result is transposed back, so
//! callers always get (column, row) positions. Afterwards each layer is
//! pushed further along the flow axis to widen the crate's fixed three-cell
//! inter-layer gap to the configured one, and right-to-left and bottom-to-top
//! flows are mirrored.

use vstd::prelude::*;

verus! {

/// Flow direction of a graph.
#[derive(Clone, Copy, Debug, PartialEq, Eq, Structural)]
pub enum Direction {
    TopToBottom,
    BottomToTop,
    LeftToRight,
    RightToLeft,
}

/// A node to lay out, with the size of its box on screen.
pub struct LayoutNode {
    /// Node identifier.
    pub id: String,
    /// Box width in cells, along the rows.
    pub width: usize,
    /// Box height in rows.
    pub height: usize,
}

/// An edge between two node identifiers, with an optional label.
pub struct LayoutEdge {
    pub from: String,
    pub to: String,
    pub label: Option<String>,
}

/// A graph to lay out.
pub struct Graph {
    pub direction: Direction,
    pub nodes: Vec<LayoutNode>,
    pub edges: Vec<LayoutEdge>,
}

/// Spacing of the layout.
pub struct LayoutConfig {
    /// Cells between consecutive layers along the flow.
    pub layer_gap: usize,
    /// Cells between neighbouring nodes of a layer.
    pub node_gap: usize,
}

/// Where a node was placed: its column and row.
pub struct NodePosition {
    pub id: String,
    pub col: usize,
    pub row: usize,
}

/// Positions of the laid-out nodes, in the order the layout produced them.
pub struct LayoutResult {
    pub positions: Vec<NodePosition>,
}

/// A node handed to `ascii-dag`: its numeric id, label and box size.
pub struct DagNode {
    pub id: usize,
    pub label: String,
    pub width: usize,
    pub height: usize,
}

/// An edge handed to `ascii-dag`.
pub struct DagEdge {
    pub from: usize,
    pub to: usize,
    pub label: Option<String>,
}

/// A node of the layout `ascii-dag` computed: id, top-down coordinates,
/// level, and whether it is a dummy inserted for edge routing.
pub struct IrNode {
    pub id: usize,
    pub x: usize,
    pub y: usize,
    pub level: usize,
    pub dummy: bool,
}

/// The layout is transposed for left-right flows.
pub open spec fn transposed(d: Direction) -> bool {
    d == Direction::LeftToRight || d == Direction::RightToLeft
}

/// Index of the last node with identifier `id`.
pub open spec fn last_index(nodes: Seq<LayoutNode>, id: Seq<char>) -> Option<nat>
    decreases nodes.len(),
{
    if nodes.len() == 0 {
        None
    } else if nodes.last().id@ == id {
        Some((nodes.len() - 1) as nat)
    } else {
        last_index(nodes.drop_last(), id)
    }
}

/// Numeric id of a node identifier: one more than the index of the last node
/// carrying it (ids start at 1).
pub open spec fn dag_id(nodes: Seq<LayoutNode>, id: Seq<char>) -> Option<nat> {
    match last_index(nodes, id) {
        Some(i) => Some(i + 1),
        None => None,
    }
}

/// The node handed over for `nodes[i]`: numeric id, the identifier as
/// label, and the box size, swapped for left-right flows.
pub open spec fn dag_node_spec(nodes: Seq<LayoutNode>, d: Direction, i: int) -> (nat, Seq<char>, usize, usize) {
    let n = nodes[i];
    (
        dag_id(nodes, n.id@).unwrap(),
        n.id@,
        if transposed(d) { n.height } else { n.width },
        if transposed(d) { n.width } else { n.height },
    )
}

/// View of an optional label.
pub open spec fn label_view(l: Option<String>) -> Option<Seq<char>> {
    match l {
        Some(s) => Some(s@),
        None => None,
    }
}

/// The edges handed over: those whose endpoints are both node identifiers,
/// in order, as numeric ids.
pub open spec fn dag_edges_spec(nodes: Seq<LayoutNode>, edges: Seq<LayoutEdge>) -> Seq<(nat, nat, Option<Seq<char>>)>
    decreases edges.len(),
{
    if edges.len() == 0 {
        Seq::empty()
    } else {
        let prev = dag_edges_spec(nodes, edges.drop_last());
        let e = edges.last();
        match (dag_id(nodes, e.from@), dag_id(nodes, e.to@)) {
            (Some(f), Some(t)) => prev.push((f, t, label_view(e.label))),
            _ => prev,
        }
    }
}

/// View of a handed-over node.
pub open spec fn dag_node_view(n: DagNode) -> (nat, Seq<char>, usize, usize) {
    (n.id as nat, n.label@, n.width, n.height)
}

/// View of a handed-over edge.
pub open spec fn dag_edge_view(e: DagEdge) -> (nat, nat, Option<Seq<char>>) {
    (e.from as nat, e.to as nat, label_view(e.label))
}

/// Views of the handed-over nodes.
pub open spec fn dag_nodes_view(v: Seq<DagNode>) -> Seq<(nat, Seq<char>, usize, usize)> {
    v.map_values(|n: DagNode| dag_node_view(n))
}

/// Views of the handed-over edges.
pub open spec fn dag_edges_view(v: Seq<DagEdge>) -> Seq<(nat, nat, Option<Seq<char>>)> {
    v.map_values(|e: DagEdge| dag_edge_view(e))
}

/// The nodes handed over for a graph, in node order (see `dag_node_spec`).
pub open spec fn dag_nodes_spec(nodes: Seq<LayoutNode>, d: Direction) -> Seq<(nat, Seq<char>, usize, usize)> {
    Seq::new(nodes.len(), |i: int| dag_node_spec(nodes, d, i))
}

/// What `ascii_dag::Graph::compute_layout_with_config` gives (standard
/// preset, the given spacings, dummy nodes requested) for a graph built from
/// these nodes and edges, as the list of its laid-out nodes.
pub uninterp spec fn dag_layout(nodes: Seq<(nat, Seq<char>, usize, usize)>, edges: Seq<(nat, nat, Option<Seq<char>>)>, layer_gap: usize, node_gap: usize) -> Seq<IrNode>;

/// The laid-out nodes are exactly the input nodes: no dummy node, every
/// entry names an input node, every input node has an entry, and no two
/// entries share an id.
pub open spec fn covers_nodes(ir: Seq<IrNode>, nodes: Seq<(nat, Seq<char>, usize, usize)>) -> bool {
    &&& forall|i: int|
        0 <= i < ir.len() ==> !(#[trigger] ir[i]).dummy && exists|k: int|
            0 <= k < nodes.len() && (#[trigger] nodes[k]).0 == ir[i].id
    &&& forall|k: int| 0 <= k < nodes.len() ==> exists|i: int| 0 <= i < ir.len() && (#[trigger] ir[i]).id == (#[trigger] nodes[k]).0
    &&& forall|i: int, j: int| 0 <= i < j < ir.len() ==> (#[trigger] ir[i]).id != (#[trigger] ir[j]).id
}

/// Each level is drawn at one height: nodes on the same level share their
/// `y`, and a deeper level lies further down.
pub open spec fn ys_follow_levels(ir: Seq<IrNode>) -> bool {
    forall|i: int, j: int|
        0 <= i < ir.len() && 0 <= j < ir.len() ==> {
            &&& ((#[trigger] ir[i]).level < (#[trigger] ir[j]).level ==> ir[i].y < ir[j].y)
            &&& (ir[i].level == ir[j].level ==> ir[i].y == ir[j].y)
        }
}

/// Every edge joins two of the nodes (so the crate adds no placeholder
/// node for an unknown end).
pub open spec fn edges_within(nodes: Seq<(nat, Seq<char>, usize, usize)>, edges: Seq<(nat, nat, Option<Seq<char>>)>) -> bool {
    forall|e: int|
        0 <= e < edges.len() ==> (exists|k: int| 0 <= k < nodes.len() && nodes[k].0 == (#[trigger] edges[e]).0) && (exists|k: int|
            0 <= k < nodes.len() && nodes[k].0 == edges[e].1)
}

/// The edges can be ranked: some numbering of the nodes increases along
/// every edge (the graph has no cycle).
pub open spec fn acyclic(edges: Seq<(nat, nat, Option<Seq<char>>)>) -> bool {
    exists|rank: spec_fn(nat) -> int| #[trigger] ranks(rank, edges)
}

/// `rank` increases along every edge.
pub open spec fn ranks(rank: spec_fn(nat) -> int, edges: Seq<(nat, nat, Option<Seq<char>>)>) -> bool {
    forall|e: int| 0 <= e < edges.len() ==> rank((#[trigger] edges[e]).0) < rank(edges[e].1)
}

/// Levels separate the ends of every edge between two different nodes, and
/// when the graph has no cycle every edge leads to a deeper level.
pub open spec fn levels_follow_edges(ir: Seq<IrNode>, edges: Seq<(nat, nat, Option<Seq<char>>)>) -> bool {
    &&& forall|e: int, i: int, j: int|
        #![trigger edges[e], ir[i], ir[j]]
        0 <= e < edges.len() && 0 <= i < ir.len() && 0 <= j < ir.len() && edges[e].0 != edges[e].1
            && ir[i].id == edges[e].0 && ir[j].id == edges[e].1 ==> ir[i].level != ir[j].level
    &&& acyclic(edges) ==> forall|e: int, i: int, j: int|
        #![trigger edges[e], ir[i], ir[j]]
        0 <= e < edges.len() && 0 <= i < ir.len() && 0 <= j < ir.len() && ir[i].id == edges[e].0 && ir[j].id
            == edges[e].1 ==> ir[i].level < ir[j].level
}

/// Numeric id of `id`: one more than the index of the last node carrying it.
fn find_dag_id(nodes: &Vec<LayoutNode>, id: &String) -> (r: Option<usize>)
    requires
        nodes@.len() < usize::MAX,
    ensures
        match r {
            Some(k) => dag_id(nodes@, id@) == Some(k as nat),
            None => dag_id(nodes@, id@) is None,
        },
{
    let mut found: Option<usize> = None;
    let mut i: usize = 0;
    while i < nodes.len()
        invariant
            i <= nodes@.len(),
            nodes@.len() < usize::MAX,
            match found {
                Some(k) => last_index(nodes@.take(i as int), id@) == Some((k - 1) as nat) && k >= 1,
                None => last_index(nodes@.take(i as int), id@) is None,
            },
        decreases nodes.len() - i,
    {
        assert(nodes@.take(i + 1).drop_last() =~= nodes@.take(i as int));
        if nodes[i].id.eq(id) {
            found = Some(i + 1);
        }
        i += 1;
    }
    assert(nodes@.take(nodes@.len() as int) =~= nodes@);
    found
}

/// The nodes and edges handed to `ascii-dag` for `graph`.
pub fn dag_inputs(graph: &Graph) -> (r: (Vec<DagNode>, Vec<DagEdge>))
    requires
        graph.nodes@.len() < usize::MAX,
    ensures
        r.0@.len() == graph.nodes@.len(),
        forall|i: int|
            0 <= i < r.0@.len() ==> dag_node_view(#[trigger] r.0@[i]) == dag_node_spec(
                graph.nodes@,
                graph.direction,
                i,
            ),
        dag_edges_view(r.1@) == dag_edges_spec(graph.nodes@, graph.edges@),
        dag_nodes_view(r.0@) == dag_nodes_spec(graph.nodes@, graph.direction),
        edges_within(dag_nodes_view(r.0@), dag_edges_view(r.1@)),
{
    let transpose = graph.direction == Direction::LeftToRight || graph.direction == Direction::RightToLeft;
    let mut nodes: Vec<DagNode> = Vec::new();
    let mut i: usize = 0;
    while i < graph.nodes.len()
        invariant
            i <= graph.nodes@.len(),
            graph.nodes@.len() < usize::MAX,
            transpose == transposed(graph.direction),
            nodes@.len() == i,
            forall|k: int|
                0 <= k < i ==> dag_node_view(#[trigger] nodes@[k]) == dag_node_spec(
                    graph.nodes@,
                    graph.direction,
                    k,
                ),
        decreases graph.nodes.len() - i,
    {
        let n = &graph.nodes[i];
        proof {
            lemma_last_index_of_member(graph.nodes@, i as int);
        }
        let aid = match find_dag_id(&graph.nodes, &n.id) {
            Some(k) => k,
            None => 0,
        };
        let (w, h) = if transpose { (n.height, n.width) } else { (n.width, n.height) };
        nodes.push(DagNode { id: aid, label: n.id.clone(), width: w, height: h });
        i += 1;
    }
    let mut edges: Vec<DagEdge> = Vec::new();
    let mut j: usize = 0;
    while j < graph.edges.len()
        invariant
            j <= graph.edges@.len(),
            graph.nodes@.len() < usize::MAX,
            dag_edges_view(edges@) == dag_edges_spec(
                graph.nodes@,
                graph.edges@.take(j as int),
            ),
        decreases graph.edges.len() - j,
    {
        let e = &graph.edges[j];
        assert(graph.edges@.take(j + 1).drop_last() =~= graph.edges@.take(j as int));
        let from = find_dag_id(&graph.nodes, &e.from);
        let to = find_dag_id(&graph.nodes, &e.to);
        if let (Some(f), Some(t)) = (from, to) {
            let label = match &e.label {
                Some(l) => Some(l.clone()),
                None => None,
            };
            let ghost before = edges@;
            edges.push(DagEdge { from: f, to: t, label });
            assert(dag_edges_view(edges@) =~= dag_edges_view(before).push(dag_edge_view(edges@.last())));
        }
        j += 1;
    }
    assert(graph.edges@.take(graph.edges@.len() as int) =~= graph.edges@);
    assert(dag_nodes_view(nodes@) =~= dag_nodes_spec(graph.nodes@, graph.direction));
    proof {
        lemma_dag_edges_within(graph.nodes@, graph.direction, graph.edges@);
    }
    (nodes, edges)
}

proof fn lemma_last_index_names(nodes: Seq<LayoutNode>, id: Seq<char>)
    ensures
        last_index(nodes, id) matches Some(k) ==> k < nodes.len() && nodes[k as int].id@ == id,
    decreases nodes.len(),
{
    if nodes.len() > 0 && nodes.last().id@ != id {
        lemma_last_index_names(nodes.drop_last(), id);
        if let Some(k) = last_index(nodes.drop_last(), id) {
            assert(nodes.drop_last()[k as int] == nodes[k as int]);
        }
    }
}

/// The handed-over edges only join handed-over nodes.
proof fn lemma_dag_edges_within(nodes: Seq<LayoutNode>, d: Direction, edges: Seq<LayoutEdge>)
    ensures
        edges_within(dag_nodes_spec(nodes, d), dag_edges_spec(nodes, edges)),
    decreases edges.len(),
{
    if edges.len() > 0 {
        lemma_dag_edges_within(nodes, d, edges.drop_last());
        let e = edges.last();
        let ns = dag_nodes_spec(nodes, d);
        let prev = dag_edges_spec(nodes, edges.drop_last());
        let cur = dag_edges_spec(nodes, edges);
        if let (Some(f), Some(t)) = (dag_id(nodes, e.from@), dag_id(nodes, e.to@)) {
            lemma_last_index_names(nodes, e.from@);
            lemma_last_index_names(nodes, e.to@);
            let kf = (f - 1) as int;
            let kt = (t - 1) as int;
            assert(ns[kf].0 == f);
            assert(ns[kt].0 == t);
            assert forall|x: int| 0 <= x < cur.len() implies (exists|k: int| 0 <= k < ns.len() && ns[k].0 == (#[trigger] cur[x]).0)
                && (exists|k: int| 0 <= k < ns.len() && ns[k].0 == cur[x].1) by {
                if x < prev.len() {
                    assert(cur[x] == prev[x]);
                }
            }
        }
    }
}

/// A member's identifier has a last index.
proof fn lemma_last_index_of_member(nodes: Seq<LayoutNode>, i: int)
    requires
        0 <= i < nodes.len(),
    ensures
        last_index(nodes, nodes[i].id@) matches Some(k) && k < nodes.len(),
    decreases nodes.len(),
{
    if nodes.last().id@ != nodes[i].id@ {
        assert(i < nodes.len() - 1);
        assert(nodes.drop_last()[i] == nodes[i]);
        lemma_last_index_of_member(nodes.drop_last(), i);
    }
}

/// Lay the handed-over graph out with `ascii-dag`'s standard preset
/// (`compute_layout_with_config`) and list the laid-out nodes. The result is
/// a function of the arguments, named `dag_layout`. The crate's source shows
/// that it lists each distinct input node once and no dummy node (the
/// longest-path layering only adds real nodes to the layout), that the two
/// ends of an edge between different nodes lie on different levels (an edge
/// closing a cycle is laid out reversed), and that without cycles every edge
/// goes to a deeper level; and that every node of a level gets the level's
/// `y`, the levels' `y` growing with depth (each level is at least three
/// rows tall). The `x` coordinates are left to the name.
#[verifier::external_body]
fn compute_dag_layout(nodes: &Vec<DagNode>, edges: &Vec<DagEdge>, layer_gap: usize, node_gap: usize) -> (r: Vec<IrNode>)
    requires
        edges_within(dag_nodes_view(nodes@), dag_edges_view(edges@)),
    ensures
        r@ == dag_layout(dag_nodes_view(nodes@), dag_edges_view(edges@), layer_gap, node_gap),
        covers_nodes(r@, dag_nodes_view(nodes@)),
        levels_follow_edges(r@, dag_edges_view(edges@)),
        ys_follow_levels(r@),
{
    let mut g = ascii_dag::Graph::new();
    for n in nodes {
        g.add_node_with_size(n.id, n.label.as_str(), n.width, n.height);
    }
    for e in edges {
        g.add_edge(e.from, e.to, e.label.as_deref());
    }
    let mut cfg = ascii_dag::LayoutConfig::standard();
    cfg.level_spacing = layer_gap;
    cfg.node_spacing = node_gap;
    cfg.include_dummy_nodes = true;
    let ir = g.compute_layout_with_config(&cfg);
    ir.nodes().iter().map(|n| IrNode { id: n.id, x: n.x, y: n.y, level: n.level, dummy: n.kind == ascii_dag::NodeKind::Dummy }).collect()
}

/// Inter-layer gap `ascii-dag` leaves on its own.
pub const BASELINE_LAYER_GAP: usize = 3;

/// `a + b`, or `usize::MAX` when that overflows.
pub open spec fn add_sat(a: usize, b: usize) -> usize {
    if a + b <= usize::MAX { (a + b) as usize } else { usize::MAX }
}

/// `a * b`, or `usize::MAX` when that overflows.
pub open spec fn mul_sat(a: usize, b: usize) -> usize {
    if a * b <= usize::MAX { (a * b) as usize } else { usize::MAX }
}

/// A real node of the computed layout (not a dummy, and one of ours).
pub open spec fn is_real(n: IrNode, count: nat) -> bool {
    !n.dummy && 1 <= n.id <= count
}

/// Position of a real node before mirroring: transposed for left-right
/// flows, then pushed `level * extra` cells further along the flow axis.
pub open spec fn shifted(n: IrNode, d: Direction, extra: usize) -> (usize, usize) {
    let (col, row) = if transposed(d) { (n.y, n.x) } else { (n.x, n.y) };
    let offset = mul_sat(n.level, extra);
    if transposed(d) {
        (add_sat(col, offset), row)
    } else {
        (col, add_sat(row, offset))
    }
}

/// The real nodes of the computed layout, with identifier and shifted
/// position, in order.
pub open spec fn placed(ir: Seq<IrNode>, ids: Seq<Seq<char>>, d: Direction, extra: usize) -> Seq<(Seq<char>, usize, usize)>
    decreases ir.len(),
{
    if ir.len() == 0 {
        Seq::empty()
    } else {
        let prev = placed(ir.drop_last(), ids, d, extra);
        let n = ir.last();
        if is_real(n, ids.len()) {
            let p = shifted(n, d, extra);
            prev.push((ids[n.id - 1], p.0, p.1))
        } else {
            prev
        }
    }
}

/// Largest column among placed nodes (0 when there are none).
pub open spec fn max_col(p: Seq<(Seq<char>, usize, usize)>) -> usize
    decreases p.len(),
{
    if p.len() == 0 {
        0
    } else {
        let m = max_col(p.drop_last());
        if p.last().1 > m { p.last().1 } else { m }
    }
}

/// Largest row among placed nodes (0 when there are none).
pub open spec fn max_row(p: Seq<(Seq<char>, usize, usize)>) -> usize
    decreases p.len(),
{
    if p.len() == 0 {
        0
    } else {
        let m = max_row(p.drop_last());
        if p.last().2 > m { p.last().2 } else { m }
    }
}

/// Final position of a placed node: right-to-left flows mirror the columns
/// and bottom-to-top flows the rows.
pub open spec fn mirrored(e: (Seq<char>, usize, usize), d: Direction, mc: usize, mr: usize) -> (Seq<char>, usize, usize) {
    (
        e.0,
        if d == Direction::RightToLeft { (mc - e.1) as usize } else { e.1 },
        if d == Direction::BottomToTop { (mr - e.2) as usize } else { e.2 },
    )
}

/// The positions derived from a computed layout.
pub open spec fn positions_spec(ir: Seq<IrNode>, ids: Seq<Seq<char>>, d: Direction, layer_gap: usize) -> Seq<(Seq<char>, usize, usize)> {
    let extra = if layer_gap >= BASELINE_LAYER_GAP { (layer_gap - BASELINE_LAYER_GAP) as usize } else { 0 };
    let p = placed(ir, ids, d, extra);
    Seq::new(p.len(), |i: int| mirrored(p[i], d, max_col(p), max_row(p)))
}

/// View of a node position.
pub open spec fn position_view(p: NodePosition) -> (Seq<char>, usize, usize) {
    (p.id@, p.col, p.row)
}

/// Views of a list of positions.
pub open spec fn positions_view(s: Seq<NodePosition>) -> Seq<(Seq<char>, usize, usize)> {
    s.map_values(|p: NodePosition| position_view(p))
}

/// Views of a sequence of strings.
pub open spec fn views_of(s: Seq<String>) -> Seq<Seq<char>> {
    s.map_values(|x: String| x@)
}

/// Identifiers of the nodes, by index.
pub open spec fn node_ids(nodes: Seq<LayoutNode>) -> Seq<Seq<char>> {
    nodes.map_values(|n: LayoutNode| n.id@)
}

proof fn lemma_max_bounds(p: Seq<(Seq<char>, usize, usize)>)
    ensures
        forall|i: int| 0 <= i < p.len() ==> #[trigger] p[i].1 <= max_col(p) && p[i].2 <= max_row(p),
    decreases p.len(),
{
    if p.len() > 0 {
        lemma_max_bounds(p.drop_last());
        assert forall|i: int| 0 <= i < p.len() implies #[trigger] p[i].1 <= max_col(p) && p[i].2 <= max_row(p) by {
            if i < p.len() - 1 {
                assert(p.drop_last()[i] == p[i]);
            }
        }
    }
}

/// Turn a computed layout into node positions: keep the real nodes, transpose
/// for left-right flows, widen the inter-layer gap from the crate's three
/// cells to `layer_gap`, then mirror right-to-left and bottom-to-top flows.
/// Offsets that would overflow stop at `usize::MAX`.
pub fn place_nodes(direction: Direction, layer_gap: usize, ids: &Vec<String>, ir: &Vec<IrNode>) -> (r: LayoutResult)
    ensures
        positions_view(r.positions@) == positions_spec(
            ir@,
            views_of(ids@),
            direction,
            layer_gap,
        ),
{
    let ghost idv = views_of(ids@);
    let extra: usize = layer_gap.saturating_sub(BASELINE_LAYER_GAP);
    let transpose = direction == Direction::LeftToRight || direction == Direction::RightToLeft;
    let mut placed_v: Vec<(usize, usize, usize)> = Vec::new();
    let mut max_x: usize = 0;
    let mut max_y: usize = 0;
    let mut i: usize = 0;
    while i < ir.len()
        invariant
            i <= ir@.len(),
            transpose == transposed(direction),
            extra == (if layer_gap >= BASELINE_LAYER_GAP { (layer_gap - BASELINE_LAYER_GAP) as usize } else { 0 }),
            idv == views_of(ids@),
            forall|k: int| 0 <= k < placed_v@.len() ==> #[trigger] placed_v@[k].0 < ids@.len(),
            placed_v@.map_values(|t: (usize, usize, usize)| (idv[t.0 as int], t.1, t.2)) == placed(
                ir@.take(i as int),
                idv,
                direction,
                extra,
            ),
            max_x == max_col(placed(ir@.take(i as int), idv, direction, extra)),
            max_y == max_row(placed(ir@.take(i as int), idv, direction, extra)),
        decreases ir.len() - i,
    {
        let n = &ir[i];
        let ghost prev = placed(ir@.take(i as int), idv, direction, extra);
        let ghost next = placed(ir@.take(i + 1), idv, direction, extra);
        assert(ir@.take(i + 1).drop_last() =~= ir@.take(i as int));
        assert(ir@.take(i + 1).last() == ir@[i as int]);
        let ghost before = placed_v@;
        if !n.dummy && 1 <= n.id && n.id <= ids.len() {
            let (col, row) = if transpose { (n.y, n.x) } else { (n.x, n.y) };
            let offset = match n.level.checked_mul(extra) {
                Some(o) => o,
                None => usize::MAX,
            };
            let (c, r) = if transpose { (col.saturating_add(offset), row) } else { (col, row.saturating_add(offset)) };
            assert((c, r) == shifted(*n, direction, extra));
            assert(next == prev.push((idv[n.id - 1], c, r)));
            assert(next.drop_last() =~= prev);
            placed_v.push((n.id - 1, c, r));
            assert(placed_v@.map_values(|t: (usize, usize, usize)| (idv[t.0 as int], t.1, t.2)) =~= next);
            if c > max_x {
                max_x = c;
            }
            if r > max_y {
                max_y = r;
            }
        } else {
            assert(next == prev);
        }
        i += 1;
    }
    assert(ir@.take(ir@.len() as int) =~= ir@);
    let ghost p = placed(ir@, idv, direction, extra);
    proof {
        lemma_max_bounds(p);
    }
    let mut out: Vec<NodePosition> = Vec::new();
    let mut j: usize = 0;
    while j < placed_v.len()
        invariant
            j <= placed_v@.len(),
            p == placed(ir@, idv, direction, extra),
            forall|k: int| 0 <= k < placed_v@.len() ==> #[trigger] placed_v@[k].0 < ids@.len(),
            placed_v@.map_values(|t: (usize, usize, usize)| (idv[t.0 as int], t.1, t.2)) == p,
            forall|k: int| 0 <= k < p.len() ==> #[trigger] p[k].1 <= max_col(p) && p[k].2 <= max_row(p),
            max_x == max_col(p),
            max_y == max_row(p),
            idv == views_of(ids@),
            out@.len() == j,
            forall|k: int|
                0 <= k < j ==> position_view(#[trigger] out@[k]) == mirrored(p[k], direction, max_col(p), max_row(p)),
        decreases placed_v.len() - j,
    {
        let (idx, c, r) = placed_v[j];
        assert(p[j as int] == (idv[idx as int], c, r));
        assert(p[j as int].1 <= max_col(p) && p[j as int].2 <= max_row(p));
        let col = if direction == Direction::RightToLeft { max_x - c } else { c };
        let row = if direction == Direction::BottomToTop { max_y - r } else { r };
        let id = ids[idx].clone();
        assert(id@ == idv[idx as int]);
        out.push(NodePosition { id, col, row });
        j += 1;
    }
    let r = LayoutResult { positions: out };
    assert(positions_view(r.positions@) =~= positions_spec(ir@, idv, direction, layer_gap));
    r
}

proof fn lemma_placed_same_axis(ir: Seq<IrNode>, ids: Seq<Seq<char>>, d1: Direction, d2: Direction, extra: usize)
    requires
        transposed(d1) == transposed(d2),
    ensures
        placed(ir, ids, d1, extra) == placed(ir, ids, d2, extra),
    decreases ir.len(),
{
    if ir.len() > 0 {
        lemma_placed_same_axis(ir.drop_last(), ids, d1, d2, extra);
    }
}

/// Right-to-left flows are left-to-right flows mirrored: the same nodes in
/// the same rows, with columns reflected about the widest column.
pub proof fn right_to_left_mirrors_left_to_right(ir: Seq<IrNode>, ids: Seq<Seq<char>>, layer_gap: usize)
    ensures
        positions_spec(ir, ids, Direction::RightToLeft, layer_gap).len() == positions_spec(
            ir,
            ids,
            Direction::LeftToRight,
            layer_gap,
        ).len(),
        forall|k: int|
            0 <= k < positions_spec(ir, ids, Direction::LeftToRight, layer_gap).len() ==> {
                let a = #[trigger] positions_spec(ir, ids, Direction::LeftToRight, layer_gap)[k];
                let b = positions_spec(ir, ids, Direction::RightToLeft, layer_gap)[k];
                &&& b.0 == a.0
                &&& b.2 == a.2
                &&& b.1 + a.1 == max_col(placed(ir, ids, Direction::LeftToRight, (if layer_gap >= BASELINE_LAYER_GAP { (layer_gap - BASELINE_LAYER_GAP) as usize } else { 0 })))
            },
{
    let extra = if layer_gap >= BASELINE_LAYER_GAP { (layer_gap - BASELINE_LAYER_GAP) as usize } else { 0 };
    lemma_placed_same_axis(ir, ids, Direction::LeftToRight, Direction::RightToLeft, extra);
    lemma_max_bounds(placed(ir, ids, Direction::LeftToRight, extra));
}

/// Bottom-to-top flows are top-to-bottom flows mirrored: the same nodes in
/// the same columns, with rows reflected about the lowest row.
pub proof fn bottom_to_top_mirrors_top_to_bottom(ir: Seq<IrNode>, ids: Seq<Seq<char>>, layer_gap: usize)
    ensures
        positions_spec(ir, ids, Direction::BottomToTop, layer_gap).len() == positions_spec(
            ir,
            ids,
            Direction::TopToBottom,
            layer_gap,
        ).len(),
        forall|k: int|
            0 <= k < positions_spec(ir, ids, Direction::TopToBottom, layer_gap).len() ==> {
                let a = #[trigger] positions_spec(ir, ids, Direction::TopToBottom, layer_gap)[k];
                let b = positions_spec(ir, ids, Direction::BottomToTop, layer_gap)[k];
                &&& b.0 == a.0
                &&& b.1 == a.1
                &&& b.2 + a.2 == max_row(placed(ir, ids, Direction::TopToBottom, (if layer_gap >= BASELINE_LAYER_GAP { (layer_gap - BASELINE_LAYER_GAP) as usize } else { 0 })))
            },
{
    let extra = if layer_gap >= BASELINE_LAYER_GAP { (layer_gap - BASELINE_LAYER_GAP) as usize } else { 0 };
    lemma_placed_same_axis(ir, ids, Direction::TopToBottom, Direction::BottomToTop, extra);
    lemma_max_bounds(placed(ir, ids, Direction::TopToBottom, extra));
}

/// Compute column/row positions for `graph` with `ascii-dag`.
///
/// An empty graph gives no positions. Otherwise the graph is handed over as
/// `dag_inputs` describes, and every position names a node of the graph.
pub fn sugiyama_layout(graph: &Graph, config: &LayoutConfig) -> (r: LayoutResult)
    requires
        graph.nodes@.len() < usize::MAX,
    ensures
        graph.nodes@.len() == 0 ==> r.positions@.len() == 0,
        graph.nodes@.len() > 0 ==> positions_view(r.positions@) == positions_spec(
            dag_layout(
                dag_nodes_spec(graph.nodes@, graph.direction),
                dag_edges_spec(graph.nodes@, graph.edges@),
                config.layer_gap,
                config.node_gap,
            ),
            node_ids(graph.nodes@),
            graph.direction,
            config.layer_gap,
        ),
        forall|k: int| 0 <= k < r.positions@.len() ==> node_ids(graph.nodes@).contains(#[trigger] r.positions@[k].id@),
        forall|n: int|
            0 <= n < graph.nodes@.len() ==> exists|k: int|
                0 <= k < r.positions@.len() && (#[trigger] r.positions@[k]).id@ == (#[trigger] graph.nodes@[n]).id@,
        forall|k1: int, k2: int|
            0 <= k1 < k2 < r.positions@.len() ==> (#[trigger] r.positions@[k1]).id@ != (#[trigger] r.positions@[k2]).id@,
        graph.nodes@.len() > 0 ==> levels_follow_edges(
            dag_layout(
                dag_nodes_spec(graph.nodes@, graph.direction),
                dag_edges_spec(graph.nodes@, graph.edges@),
                config.layer_gap,
                config.node_gap,
            ),
            dag_edges_spec(graph.nodes@, graph.edges@),
        ),
        acyclic(dag_edges_spec(graph.nodes@, graph.edges@)) ==> forall|e: int, k1: int, k2: int|
            #![trigger graph.edges@[e], r.positions@[k1], r.positions@[k2]]
            0 <= e < graph.edges@.len() && 0 <= k1 < r.positions@.len() && 0 <= k2 < r.positions@.len()
                && r.positions@[k1].id@ == graph.edges@[e].from@ && r.positions@[k2].id@ == graph.edges@[e].to@
                ==> downstream(
                flow_coord(r.positions@[k1].col, r.positions@[k1].row, graph.direction),
                flow_coord(r.positions@[k2].col, r.positions@[k2].row, graph.direction),
                graph.direction,
            ),
{
    if graph.nodes.len() == 0 {
        return LayoutResult { positions: Vec::new() };
    }
    let (nodes, edges) = dag_inputs(graph);
    let ir = compute_dag_layout(&nodes, &edges, config.layer_gap, config.node_gap);
    let mut ids: Vec<String> = Vec::new();
    let mut i: usize = 0;
    while i < graph.nodes.len()
        invariant
            i <= graph.nodes@.len(),
            ids@.len() == i,
            forall|k: int| 0 <= k < i ==> #[trigger] ids@[k]@ == graph.nodes@[k].id@,
        decreases graph.nodes.len() - i,
    {
        ids.push(graph.nodes[i].id.clone());
        i += 1;
    }
    let ghost idv = views_of(ids@);
    assert(idv =~= node_ids(graph.nodes@));
    let r = place_nodes(graph.direction, config.layer_gap, &ids, &ir);
    proof {
        let extra = if config.layer_gap >= BASELINE_LAYER_GAP { (config.layer_gap - BASELINE_LAYER_GAP) as usize } else { 0 };
        let pl = placed(ir@, idv, graph.direction, extra);
        let ps = positions_spec(ir@, idv, graph.direction, config.layer_gap);
        lemma_placed_ids(ir@, idv, graph.direction, extra);
        assert(positions_view(r.positions@) == ps);
        assert(idv == node_ids(graph.nodes@));
        assert(ps.len() == pl.len());
        assert(r.positions@.len() == ps.len());
        assert forall|k: int| 0 <= k < r.positions@.len() implies node_ids(graph.nodes@).contains(
            #[trigger] r.positions@[k].id@,
        ) by {
            assert(positions_view(r.positions@)[k] == position_view(r.positions@[k]));
            assert(ps[k].0 == pl[k].0);
            assert(idv.contains(pl[k].0));
        }
        lemma_one_position_per_node(graph.nodes@, graph.direction, ir@, extra);
        if acyclic(dag_edges_spec(graph.nodes@, graph.edges@)) {
            lemma_layers_follow_edges(graph.nodes@, graph.edges@, graph.direction, ir@, config.layer_gap);
            assert forall|e: int, k1: int, k2: int|
                #![trigger graph.edges@[e], r.positions@[k1], r.positions@[k2]]
                0 <= e < graph.edges@.len() && 0 <= k1 < r.positions@.len() && 0 <= k2 < r.positions@.len()
                    && r.positions@[k1].id@ == graph.edges@[e].from@ && r.positions@[k2].id@ == graph.edges@[e].to@
                    implies downstream(
                flow_coord(r.positions@[k1].col, r.positions@[k1].row, graph.direction),
                flow_coord(r.positions@[k2].col, r.positions@[k2].row, graph.direction),
                graph.direction,
            ) by {
                assert(positions_view(r.positions@)[k1] == position_view(r.positions@[k1]));
                assert(positions_view(r.positions@)[k2] == position_view(r.positions@[k2]));
                assert(ps[k1].0 == graph.edges@[e].from@);
                assert(ps[k2].0 == graph.edges@[e].to@);
            }
        }
        assert forall|n: int| 0 <= n < graph.nodes@.len() implies exists|k: int|
            0 <= k < r.positions@.len() && (#[trigger] r.positions@[k]).id@ == (#[trigger] graph.nodes@[n]).id@ by {
            let k = choose|k: int| 0 <= k < pl.len() && pl[k].0 == graph.nodes@[n].id@;
            assert(positions_view(r.positions@)[k] == position_view(r.positions@[k]));
            assert(ps[k].0 == pl[k].0);
        }
        assert forall|k1: int, k2: int| 0 <= k1 < k2 < r.positions@.len() implies (#[trigger] r.positions@[k1]).id@
            != (#[trigger] r.positions@[k2]).id@ by {
            assert(positions_view(r.positions@)[k1] == position_view(r.positions@[k1]));
            assert(positions_view(r.positions@)[k2] == position_view(r.positions@[k2]));
            assert(ps[k1].0 == pl[k1].0);
            assert(ps[k2].0 == pl[k2].0);
        }
    }
    r
}

/// Coordinate along the flow of a position `(col, row)`: the column for
/// left-right flows, the row otherwise.
pub open spec fn flow_coord(col: usize, row: usize, d: Direction) -> usize {
    if transposed(d) { col } else { row }
}

/// Flow coordinate `fb` lies further along the flow than `fa`: larger for
/// top-to-bottom and left-to-right flows, smaller for the mirrored flows.
/// The one exception is a coordinate that saturated at the largest `usize`
/// (shown as 0 once mirrored).
pub open spec fn downstream(fa: usize, fb: usize, d: Direction) -> bool {
    if d == Direction::TopToBottom || d == Direction::LeftToRight {
        fa < fb || fb == usize::MAX
    } else {
        fa > fb || fb == 0
    }
}

/// Flow coordinate of a layout entry before mirroring.
pub open spec fn shifted_flow(n: IrNode, d: Direction, extra: usize) -> usize {
    if transposed(d) { shifted(n, d, extra).0 } else { shifted(n, d, extra).1 }
}

proof fn lemma_shift_monotone(a: IrNode, b: IrNode, d: Direction, extra: usize)
    requires
        a.level < b.level,
        a.y < b.y,
    ensures
        shifted_flow(a, d, extra) < shifted_flow(b, d, extra) || shifted_flow(b, d, extra) == usize::MAX,
{
    assert(a.level * extra <= b.level * extra) by (nonlinear_arith)
        requires
            a.level < b.level,
    ;
}

/// A graph edge whose ends are both nodes is among the handed-over edges.
proof fn lemma_edge_handed_over(nodes: Seq<LayoutNode>, edges: Seq<LayoutEdge>, e: int)
    requires
        0 <= e < edges.len(),
        dag_id(nodes, edges[e].from@) is Some,
        dag_id(nodes, edges[e].to@) is Some,
    ensures
        exists|x: int|
            0 <= x < dag_edges_spec(nodes, edges).len() && (#[trigger] dag_edges_spec(nodes, edges)[x]).0 == dag_id(
                nodes,
                edges[e].from@,
            ).unwrap() && dag_edges_spec(nodes, edges)[x].1 == dag_id(nodes, edges[e].to@).unwrap(),
    decreases edges.len(),
{
    let prev = dag_edges_spec(nodes, edges.drop_last());
    let cur = dag_edges_spec(nodes, edges);
    if e == edges.len() - 1 {
        assert(cur[prev.len() as int] == cur.last());
    } else {
        lemma_edge_handed_over(nodes, edges.drop_last(), e);
        assert(edges.drop_last()[e] == edges[e]);
        let x = choose|x: int|
            0 <= x < prev.len() && (#[trigger] prev[x]).0 == dag_id(nodes, edges[e].from@).unwrap() && prev[x].1
                == dag_id(nodes, edges[e].to@).unwrap();
        assert(cur[x] == prev[x]);
    }
}

/// What an entry of a layout that covers the nodes says: it is real, and
/// its id is the numeric id of the node at that index.
proof fn lemma_layout_entry(nodes: Seq<LayoutNode>, d: Direction, ir: Seq<IrNode>, i: int)
    requires
        covers_nodes(ir, dag_nodes_spec(nodes, d)),
        0 <= i < ir.len(),
    ensures
        is_real(ir[i], nodes.len()),
        dag_id(nodes, nodes[ir[i].id - 1].id@) == Some(ir[i].id as nat),
{
    let ns = dag_nodes_spec(nodes, d);
    assert(ir[i] == ir[i]);
    let k = choose|k: int| 0 <= k < ns.len() && (#[trigger] ns[k]).0 == ir[i].id;
    lemma_last_index_of_member(nodes, k);
    lemma_last_index_names(nodes, nodes[k].id@);
}

/// Without cycles, every edge of the graph points along the flow: its target
/// is placed further along than its source.
#[verifier::spinoff_prover]
#[verifier::rlimit(100)]
proof fn lemma_layers_follow_edges(nodes: Seq<LayoutNode>, edges: Seq<LayoutEdge>, d: Direction, ir: Seq<IrNode>, layer_gap: usize)
    requires
        nodes.len() < usize::MAX,
        covers_nodes(ir, dag_nodes_spec(nodes, d)),
        levels_follow_edges(ir, dag_edges_spec(nodes, edges)),
        ys_follow_levels(ir),
        acyclic(dag_edges_spec(nodes, edges)),
    ensures
        forall|e: int, k1: int, k2: int|
            #![trigger edges[e], positions_spec(ir, node_ids(nodes), d, layer_gap)[k1], positions_spec(ir, node_ids(nodes), d, layer_gap)[k2]]
            0 <= e < edges.len() && 0 <= k1 < positions_spec(ir, node_ids(nodes), d, layer_gap).len() && 0 <= k2
                < positions_spec(ir, node_ids(nodes), d, layer_gap).len() && positions_spec(ir, node_ids(nodes), d, layer_gap)[k1].0
                == edges[e].from@ && positions_spec(ir, node_ids(nodes), d, layer_gap)[k2].0 == edges[e].to@
                ==> downstream(
                flow_coord(
                    positions_spec(ir, node_ids(nodes), d, layer_gap)[k1].1,
                    positions_spec(ir, node_ids(nodes), d, layer_gap)[k1].2,
                    d,
                ),
                flow_coord(
                    positions_spec(ir, node_ids(nodes), d, layer_gap)[k2].1,
                    positions_spec(ir, node_ids(nodes), d, layer_gap)[k2].2,
                    d,
                ),
                d,
            ),
{
    let extra = if layer_gap >= BASELINE_LAYER_GAP { (layer_gap - BASELINE_LAYER_GAP) as usize } else { 0 };
    let ids = node_ids(nodes);
    let pl = placed(ir, ids, d, extra);
    let ps = positions_spec(ir, ids, d, layer_gap);
    let de = dag_edges_spec(nodes, edges);
    assert forall|i: int| 0 <= i < ir.len() implies is_real(#[trigger] ir[i], ids.len()) by {
        lemma_layout_entry(nodes, d, ir, i);
    }
    lemma_placed_all_real(ir, ids, d, extra);
    lemma_max_bounds(pl);
    assert forall|e: int, k1: int, k2: int|
        #![trigger edges[e], ps[k1], ps[k2]]
        0 <= e < edges.len() && 0 <= k1 < ps.len() && 0 <= k2 < ps.len() && ps[k1].0 == edges[e].from@ && ps[k2].0
            == edges[e].to@ implies downstream(flow_coord(ps[k1].1, ps[k1].2, d), flow_coord(ps[k2].1, ps[k2].2, d), d) by {
        lemma_layout_entry(nodes, d, ir, k1);
        lemma_layout_entry(nodes, d, ir, k2);
        assert(ps[k1] == mirrored(pl[k1], d, max_col(pl), max_row(pl)));
        assert(ps[k2] == mirrored(pl[k2], d, max_col(pl), max_row(pl)));
        assert(pl[k1] == (ids[ir[k1].id - 1], shifted(ir[k1], d, extra).0, shifted(ir[k1], d, extra).1));
        assert(pl[k2] == (ids[ir[k2].id - 1], shifted(ir[k2], d, extra).0, shifted(ir[k2], d, extra).1));
        assert(ids[ir[k1].id - 1] == nodes[ir[k1].id - 1].id@);
        assert(ids[ir[k2].id - 1] == nodes[ir[k2].id - 1].id@);
        lemma_edge_handed_over(nodes, edges, e);
        let x = choose|x: int|
            0 <= x < de.len() && (#[trigger] de[x]).0 == dag_id(nodes, edges[e].from@).unwrap() && de[x].1 == dag_id(
                nodes,
                edges[e].to@,
            ).unwrap();
        assert(de[x].0 == ir[k1].id && de[x].1 == ir[k2].id);
        assert(ir[k1].level < ir[k2].level);
        assert(ir[k1].y < ir[k2].y);
        lemma_shift_monotone(ir[k1], ir[k2], d, extra);
        assert(pl[k1].1 <= max_col(pl) && pl[k1].2 <= max_row(pl));
        assert(pl[k2].1 <= max_col(pl) && pl[k2].2 <= max_row(pl));
    }
}

proof fn lemma_placed_all_real(ir: Seq<IrNode>, ids: Seq<Seq<char>>, d: Direction, extra: usize)
    requires
        forall|i: int| 0 <= i < ir.len() ==> is_real(#[trigger] ir[i], ids.len()),
    ensures
        placed(ir, ids, d, extra).len() == ir.len(),
        forall|p: int|
            0 <= p < ir.len() ==> #[trigger] placed(ir, ids, d, extra)[p] == (
                ids[ir[p].id - 1],
                shifted(ir[p], d, extra).0,
                shifted(ir[p], d, extra).1,
            ),
    decreases ir.len(),
{
    if ir.len() > 0 {
        let rest = ir.drop_last();
        assert forall|i: int| 0 <= i < rest.len() implies is_real(#[trigger] rest[i], ids.len()) by {
            assert(rest[i] == ir[i]);
        }
        lemma_placed_all_real(rest, ids, d, extra);
        assert(is_real(ir[ir.len() - 1], ids.len()));
        assert forall|p: int| 0 <= p < ir.len() implies #[trigger] placed(ir, ids, d, extra)[p] == (
            ids[ir[p].id - 1],
            shifted(ir[p], d, extra).0,
            shifted(ir[p], d, extra).1,
        ) by {
            if p < rest.len() {
                assert(rest[p] == ir[p]);
            }
        }
    }
}

/// With a layout that lists each node once, every node of the graph gets
/// exactly one position.
proof fn lemma_one_position_per_node(nodes: Seq<LayoutNode>, d: Direction, ir: Seq<IrNode>, extra: usize)
    requires
        nodes.len() < usize::MAX,
        covers_nodes(ir, dag_nodes_spec(nodes, d)),
    ensures
        forall|n: int|
            0 <= n < nodes.len() ==> exists|k: int|
                0 <= k < placed(ir, node_ids(nodes), d, extra).len() && placed(ir, node_ids(nodes), d, extra)[k].0
                    == (#[trigger] nodes[n]).id@,
        forall|k1: int, k2: int|
            0 <= k1 < k2 < placed(ir, node_ids(nodes), d, extra).len() ==> (#[trigger] placed(ir, node_ids(nodes), d, extra)[k1]).0
                != (#[trigger] placed(ir, node_ids(nodes), d, extra)[k2]).0,
{
    let ns = dag_nodes_spec(nodes, d);
    let ids = node_ids(nodes);
    let pl = placed(ir, ids, d, extra);
    // Every listed id is the id of the last node carrying some identifier.
    assert forall|i: int| 0 <= i < ir.len() implies is_real(#[trigger] ir[i], ids.len()) && ids[ir[i].id - 1]
        == nodes[ir[i].id - 1].id@ && dag_id(nodes, nodes[ir[i].id - 1].id@) == Some(ir[i].id as nat) by {
        let k = choose|k: int| 0 <= k < ns.len() && (#[trigger] ns[k]).0 == ir[i].id;
        lemma_last_index_of_member(nodes, k);
        lemma_last_index_names(nodes, nodes[k].id@);
    }
    lemma_placed_all_real(ir, ids, d, extra);
    assert forall|n: int| 0 <= n < nodes.len() implies exists|k: int|
        0 <= k < pl.len() && pl[k].0 == (#[trigger] nodes[n]).id@ by {
        assert(ns[n].0 == ns[n].0);
        let i = choose|i: int| 0 <= i < ir.len() && (#[trigger] ir[i]).id == ns[n].0;
        lemma_last_index_of_member(nodes, n);
        lemma_last_index_names(nodes, nodes[n].id@);
        assert(pl[i].0 == ids[ir[i].id - 1]);
    }
    assert forall|k1: int, k2: int| 0 <= k1 < k2 < pl.len() implies (#[trigger] pl[k1]).0 != (#[trigger] pl[k2]).0 by {
        assert(pl[k1].0 == ids[ir[k1].id - 1]);
        assert(pl[k2].0 == ids[ir[k2].id - 1]);
        assert(is_real(ir[k1], ids.len()) && is_real(ir[k2], ids.len()));
        assert(ir[k1].id != ir[k2].id);
    }
}

/// Every placed node carries one of the identifiers.
proof fn lemma_placed_ids(ir: Seq<IrNode>, ids: Seq<Seq<char>>, d: Direction, extra: usize)
    ensures
        forall|k: int| 0 <= k < placed(ir, ids, d, extra).len() ==> ids.contains(#[trigger] placed(ir, ids, d, extra)[k].0),
    decreases ir.len(),
{
    if ir.len() > 0 {
        let prev = placed(ir.drop_last(), ids, d, extra);
        lemma_placed_ids(ir.drop_last(), ids, d, extra);
        let n = ir.last();
        let cur = placed(ir, ids, d, extra);
        assert forall|k: int| 0 <= k < cur.len() implies ids.contains(#[trigger] cur[k].0) by {
            if k < prev.len() {
                assert(cur[k] == prev[k]);
                assert(ids.contains(prev[k].0));
            } else {
                let j = n.id - 1;
                assert(cur[k].0 == ids[j]);
            }
        }
    }
}

impl LayoutResult {
    /// Position of the node `id`: the last entry naming it, as a map keyed
    /// by identifier would keep it.
    pub fn position(&self, id: &String) -> (r: Option<(usize, usize)>)
        ensures
            match r {
                Some(p) => exists|k: int|
                    0 <= k < self.positions@.len() && #[trigger] self.positions@[k].id@ == id@ && (
                    self.positions@[k].col, self.positions@[k].row) == p && forall|j: int|
                        k < j < self.positions@.len() ==> #[trigger] self.positions@[j].id@ != id@,
                None => forall|k: int| 0 <= k < self.positions@.len() ==> #[trigger] self.positions@[k].id@ != id@,
            },
    {
        let mut k: usize = self.positions.len();
        while k > 0
            invariant
                k <= self.positions@.len(),
                forall|j: int| k <= j < self.positions@.len() ==> #[trigger] self.positions@[j].id@ != id@,
            decreases k,
        {
            k -= 1;
            let p = &self.positions[k];
            if p.id.eq(id) {
                return Some((p.col, p.row));
            }
        }
        None
    }
}

} // verus!
