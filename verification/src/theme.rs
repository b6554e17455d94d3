//! Theme selection, colours, design tokens and spacing units.

pub mod spacing;
pub mod themes;
pub mod tokens;

use vstd::prelude::*;

verus! {

/// The colour themes.
#[derive(Clone, Copy, Debug, PartialEq, Eq, Structural)]
pub enum Theme {
    Default,
    Dracula,
    SolarizedDark,
    SolarizedLight,
    Nord,
    GruvboxDark,
    GruvboxLight,
    GithubLight,
}

/// Every theme, in menu order.
pub open spec fn all_themes() -> Seq<Theme> {
    seq![
        Theme::Default,
        Theme::Dracula,
        Theme::SolarizedDark,
        Theme::SolarizedLight,
        Theme::Nord,
        Theme::GruvboxDark,
        Theme::GruvboxLight,
        Theme::GithubLight,
    ]
}

impl Theme {
    /// Every theme, in menu order.
    pub fn all() -> (r: Vec<Theme>)
        ensures
            r@ == all_themes(),
    {
        vec![
            Theme::Default,
            Theme::Dracula,
            Theme::SolarizedDark,
            Theme::SolarizedLight,
            Theme::Nord,
            Theme::GruvboxDark,
            Theme::GruvboxLight,
            Theme::GithubLight,
        ]
    }
}

impl Default for Theme {
    fn default() -> (r: Self)
        ensures
            r == Theme::Default,
    {
        Theme::Default
    }
}

} // verus!
