//! Terminal comic viewer core: turns a decoded picture into Braille dot text.
pub mod grid;
pub mod braille;
pub mod dither;
pub mod loader;
pub mod comic;
