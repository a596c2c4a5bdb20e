//! Block glyphs for character-cell displays: grids composed of equally sized
//! blocks, and helpers that stitch several grids into one row of symbols.
pub mod grid_block;
pub mod ascii_art_lib;
pub mod line_block;
