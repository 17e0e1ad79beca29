//! Digital rain for a terminal: streams of glyphs that fall down the columns
//! of a buffer, each with a bright head and a tail that fades behind it.
//!
//! `widget` draws the frames, `stream` holds the rule by which a stream
//! falls, `sampler` and `gradient` place a row in a tail and a position among
//! the stops of a gradient, `shade` holds the colours, `glyphs` says what
//! drawing does to the glyphs on the buffer, and `surface` and `dice` are the
//! doors to the terminal buffer and to the random source.

pub mod dice;
pub mod glyphs;
pub mod gradient;
pub mod sampler;
pub mod shade;
pub mod stream;
pub mod surface;
pub mod widget;
