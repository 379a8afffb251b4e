//! Widgets and the text pipeline that draws into them.

pub mod escape;
pub mod font;
pub mod glyph;
pub mod text;
pub mod button;
