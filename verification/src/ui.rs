//! Decisions and text behind the viewer's widgets: the outline picker and
//! the line-number gutter. Drawing them is the application's part.

pub mod gutter;
pub mod layout;
pub mod outline_picker;
