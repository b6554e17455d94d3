use mdreader::config::{default_mermaid_max_height, default_use_hybrid_by_default, Config, MermaidMode, SearchPreview, TreePosition};

#[test]
fn config_defaults() {
    let c = Config::default();
    assert_eq!(c.mermaid_max_height, 30);
    assert!(c.use_hybrid_by_default);
    assert_eq!(c.mermaid_mode, MermaidMode::Text);
    assert_eq!(c.search_preview, SearchPreview::FullLine);
    assert_eq!(c.tree_position, TreePosition::Left);
    assert_eq!(default_mermaid_max_height(), 30);
    assert!(default_use_hybrid_by_default());
}

#[test]
fn mermaid_mode_labels() {
    assert_eq!(Config::mermaid_mode_label(MermaidMode::Text), "Text only");
    assert_eq!(Config::mermaid_mode_label(MermaidMode::Auto), "Auto");
    assert_eq!(Config::mermaid_mode_label(MermaidMode::Image), "Image only");
}
