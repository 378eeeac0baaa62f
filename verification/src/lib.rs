//! A verified terminal-to-image pipeline: it tokenizes a byte stream holding
//! ANSI/VT escape sequences, interprets SGR styling parameters, maintains a
//! cursor and a sparse cell grid, resolves colors through themeable palettes,
//! and composites the grid into a pixel image ready for glyph drawing.

pub mod color;
pub mod escape;
pub mod grid;
pub mod hexcolor;
pub mod image_to_ansi;
pub mod laws;
pub mod logging;
pub mod palette;
pub mod raster;
pub mod style;
pub mod textbuf;
pub mod vt;
pub mod writer;
