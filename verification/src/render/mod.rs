pub mod braille;
pub mod color;
