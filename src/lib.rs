//! A retained-mode character grid for terminal output: styled cells, a
//! canvas with an optional border, wrapped text runs, and serialisation to
//! escape sequences with style-run compression.

mod chars;

pub mod style;
pub mod pixel;
pub mod color;
pub mod buffer;
pub mod text;
pub mod viewable;
pub mod canvas;
pub mod render;
pub mod ansi;
pub mod rect;
