//! A terminal-resident Game of Life visualizer, verified with Verus.
//!
//! The library holds the automaton itself (`game`), the packing of 2x3
//! cell blocks into Braille glyphs (`glyph`), and the decisions of the
//! interactive control loop (`control`). Terminal I/O stays outside.

pub mod control;
pub mod game;
pub mod glyph;
