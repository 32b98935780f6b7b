pub mod escapes;
pub mod glyphs;
pub mod laws;
pub mod pixels;
pub mod render;
