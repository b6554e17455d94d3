//! Text renderers for Mermaid diagram models.

pub mod architecture;
pub mod block_diagram;
pub mod sankey;
pub mod sugiyama;
pub mod quadrant_chart;
