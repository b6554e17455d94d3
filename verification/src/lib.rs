//! Verified core of a terminal markdown reader: Unicode text measurement and
//! truncation, diagram renderers, link checking, outline navigation, theme
//! tokens and a few small configuration helpers.

pub mod text;
pub mod mermaid;
pub mod checklinks;
pub mod config;
pub mod theme;
pub mod ui;
pub mod version_check;
