//! A terminal text colorizer: text is cut into graphemes, laid out on a
//! column/row grid, and every visible grapheme is written behind a truecolor
//! escape sequence whose color the caller samples at the grapheme's position.
pub mod color;
pub mod colorizer;
pub mod layout;
pub mod lemmas;
pub mod render;
pub mod sgr;
pub mod text;

pub use color::{Gradient, Paint, RGB};
pub use colorizer::Lolcrab;
pub use layout::Cell;
pub use render::count_glyphs;
