//! Persisted user settings (the values; reading and writing the TOML file
//! is done by the application).

use vstd::prelude::*;
use crate::theme::Theme;

verus! {

/// Default maximum height of a mermaid diagram block, in display lines.
pub fn default_mermaid_max_height() -> (r: u32)
    ensures
        r == 30,
{
    30
}

/// Whether `i` opens hybrid live-preview mode by default.
pub fn default_use_hybrid_by_default() -> (r: bool)
    ensures
        r,
{
    true
}

/// Which side of the viewer the file-tree panel is on.
#[derive(Clone, Copy, Debug, PartialEq, Eq, Structural)]
pub enum TreePosition {
    Left,
    Right,
}

impl Default for TreePosition {
    fn default() -> (r: Self)
        ensures
            r == TreePosition::Left,
    {
        TreePosition::Left
    }
}

/// How mermaid diagrams are rendered in the viewer.
#[derive(Clone, Copy, Debug, PartialEq, Eq, Structural)]
pub enum MermaidMode {
    /// Image rendering when graphics are available, then Unicode text, then source.
    Auto,
    /// Always Unicode text rendering (the default).
    Text,
    /// Only the image pipeline; raw source when graphics are unavailable.
    Image,
}

impl Default for MermaidMode {
    fn default() -> (r: Self)
        ensures
            r == MermaidMode::Text,
    {
        MermaidMode::Text
    }
}

/// How the inline preview of a content-search result is shown.
#[derive(Clone, Copy, Debug, PartialEq, Eq, Structural)]
pub enum SearchPreview {
    /// The full matched line (the default).
    FullLine,
    /// A window of about 80 characters around the first match.
    Snippet,
}

impl Default for SearchPreview {
    fn default() -> (r: Self)
        ensures
            r == SearchPreview::FullLine,
    {
        SearchPreview::FullLine
    }
}

/// All persisted user settings.
#[derive(Clone, Copy, Debug)]
pub struct Config {
    pub theme: Theme,
    pub show_line_numbers: bool,
    pub tree_position: TreePosition,
    pub search_preview: SearchPreview,
    /// How mermaid diagrams are rendered.
    pub mermaid_mode: MermaidMode,
    /// Maximum height of a mermaid diagram block in display lines.
    pub mermaid_max_height: u32,
    /// Whether `i` opens hybrid live preview (and `I` the fullscreen editor).
    pub use_hybrid_by_default: bool,
}

impl Default for Config {
    fn default() -> (r: Self)
        ensures
            r.theme == Theme::Default,
            !r.show_line_numbers,
            r.tree_position == TreePosition::Left,
            r.search_preview == SearchPreview::FullLine,
            r.mermaid_mode == MermaidMode::Text,
            r.mermaid_max_height == 30,
            r.use_hybrid_by_default,
    {
        Config {
            theme: Theme::default(),
            show_line_numbers: false,
            tree_position: TreePosition::default(),
            search_preview: SearchPreview::default(),
            mermaid_mode: MermaidMode::default(),
            mermaid_max_height: default_mermaid_max_height(),
            use_hybrid_by_default: default_use_hybrid_by_default(),
        }
    }
}

/// Display label of a mermaid mode.
pub open spec fn mode_label(mode: MermaidMode) -> Seq<char> {
    match mode {
        MermaidMode::Auto => "Auto"@,
        MermaidMode::Text => "Text only"@,
        MermaidMode::Image => "Image only"@,
    }
}

impl Config {
    /// A label for a mermaid mode suitable for display.
    pub fn mermaid_mode_label(mode: MermaidMode) -> (r: &'static str)
        ensures
            r@ == mode_label(mode),
    {
        match mode {
            MermaidMode::Auto => "Auto",
            MermaidMode::Text => "Text only",
            MermaidMode::Image => "Image only",
        }
    }
}

} // verus!
