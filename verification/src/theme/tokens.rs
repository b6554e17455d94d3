//! Semantic design tokens: the colours of a theme, grouped by purpose
//! (`Surface`, `Text`, `State`, ...) so that a slot's name says what it is
//! for. Every sub-struct is `Copy` and a handful of colours in size.

use vstd::prelude::*;
use super::Theme;
use super::themes::{
    default_, default_tokens, dracula, dracula_tokens, github_light, github_light_tokens, gruvbox_dark,
    gruvbox_dark_tokens, gruvbox_light, gruvbox_light_tokens, nord, nord_tokens, solarized_dark,
    solarized_dark_tokens, solarized_light, solarized_light_tokens,
};

verus! {

/// A terminal colour: one of the sixteen named ANSI colours, the terminal's
/// default, a 24-bit RGB triple, or an index into the 256-colour palette.
#[derive(Clone, Copy, Debug, PartialEq, Eq, Structural)]
pub enum Color {
    Reset,
    Black,
    Red,
    Green,
    Yellow,
    Blue,
    Magenta,
    Cyan,
    Gray,
    DarkGray,
    LightRed,
    LightGreen,
    LightYellow,
    LightBlue,
    LightMagenta,
    LightCyan,
    White,
    Rgb(u8, u8, u8),
    Indexed(u8),
}

/// Top-level design-token bag. One per theme.
#[derive(Clone, Copy, Debug, PartialEq, Eq, Structural)]
pub struct Tokens {
    pub surface: Surface,
    pub text: Text,
    pub state: State,
    pub accent: Accent,
    pub syntax: Syntax,
    pub heading: Heading,
    pub status: Status,
    pub list: List,
    pub table: Table,
    pub git: Git,
}

/// Surface tiers — backgrounds the user sees through the layout.
#[derive(Clone, Copy, Debug, PartialEq, Eq, Structural)]
pub struct Surface {
    /// Page-level background.
    pub base: Color,
    /// Slightly elevated surface (code blocks, popups, status bar).
    pub raised: Color,
    /// Default border line color for unfocused panels.
    pub border: Color,
}

/// Reading-text colors that overlay the surface tiers.
#[derive(Clone, Copy, Debug, PartialEq, Eq, Structural)]
pub struct Text {
    pub primary: Color,
    pub muted: Color,
    /// Foreground for text drawn on an `accent.primary`-coloured background.
    pub on_accent: Color,
    /// Bold widget titles.
    pub title: Color,
}

/// Interaction-state backgrounds and the foregrounds that overlay them.
#[derive(Clone, Copy, Debug, PartialEq, Eq, Structural)]
pub struct State {
    pub selection_bg: Color,
    pub selection_fg: Color,
    /// Border colour for the focused panel and the "currently here" cue.
    pub focus: Color,
    pub search_bg: Color,
    pub current_match_bg: Color,
    /// Foreground used on both `search_bg` and `current_match_bg`.
    pub match_fg: Color,
}

/// Brand / emphasis hues used for interactive accents and links.
#[derive(Clone, Copy, Debug, PartialEq, Eq, Structural)]
pub struct Accent {
    pub primary: Color,
    pub alt: Color,
    pub link: Color,
}

/// Syntax-highlighting and code-block colors.
///
/// Code-block *background* lives on `surface.raised` — semantically a
/// code block is a raised surface tier, and pinning the colour there
/// keeps every theme's code/status/help backgrounds in sync without
/// repeating the value across slots.
#[derive(Clone, Copy, Debug, PartialEq, Eq, Structural)]
pub struct Syntax {
    pub inline_code: Color,
    pub code_fg: Color,
    pub code_border: Color,
}

/// Heading hierarchy colors.
#[derive(Clone, Copy, Debug, PartialEq, Eq, Structural)]
pub struct Heading {
    pub h1: Color,
    pub h2: Color,
    pub h3: Color,
    /// h4–h6 and any other headings beyond the styled tier.
    pub other: Color,
}

/// Status bar, help overlay, and gutter colors.
#[derive(Clone, Copy, Debug, PartialEq, Eq, Structural)]
pub struct Status {
    pub bg: Color,
    pub fg: Color,
    pub help_bg: Color,
    pub gutter: Color,
}

/// List markers and block-quote chrome.
#[derive(Clone, Copy, Debug, PartialEq, Eq, Structural)]
pub struct List {
    pub marker: Color,
    pub task_marker: Color,
    pub block_quote_fg: Color,
    pub block_quote_border: Color,
}

/// Table chrome.
#[derive(Clone, Copy, Debug, PartialEq, Eq, Structural)]
pub struct Table {
    pub header: Color,
    pub border: Color,
}

/// Git-status decorations in the file tree.
#[derive(Clone, Copy, Debug, PartialEq, Eq, Structural)]
pub struct Git {
    pub new: Color,
    pub modified: Color,
}


/// The token set of a theme.
pub open spec fn theme_tokens(theme: Theme) -> Tokens {
    match theme {
        Theme::Default => default_tokens(),
        Theme::Dracula => dracula_tokens(),
        Theme::SolarizedDark => solarized_dark_tokens(),
        Theme::SolarizedLight => solarized_light_tokens(),
        Theme::Nord => nord_tokens(),
        Theme::GruvboxDark => gruvbox_dark_tokens(),
        Theme::GruvboxLight => gruvbox_light_tokens(),
        Theme::GithubLight => github_light_tokens(),
    }
}

impl Tokens {
    /// The design tokens of the given theme.
    pub fn from_theme(theme: Theme) -> (r: Self)
        ensures
            r == theme_tokens(theme),
    {
        match theme {
            Theme::Default => default_(),
            Theme::Dracula => dracula(),
            Theme::SolarizedDark => solarized_dark(),
            Theme::SolarizedLight => solarized_light(),
            Theme::Nord => nord(),
            Theme::GruvboxDark => gruvbox_dark(),
            Theme::GruvboxLight => gruvbox_light(),
            Theme::GithubLight => github_light(),
        }
    }
}

/// In every theme the selection background differs from both surface tiers,
/// so a selected row never blends into the page or into a code block.
pub proof fn selection_differs_from_surfaces(theme: Theme)
    ensures
        theme_tokens(theme).state.selection_bg != theme_tokens(theme).surface.base,
        theme_tokens(theme).state.selection_bg != theme_tokens(theme).surface.raised,
{
}

/// Dracula has a single background tier: raised surfaces share the page
/// background.
pub proof fn dracula_single_background_tier()
    ensures
        theme_tokens(Theme::Dracula).surface.raised == theme_tokens(Theme::Dracula).surface.base,
{
}

} // verus!
