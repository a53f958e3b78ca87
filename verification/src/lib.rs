//! Bitmap pipeline for chained 8x8 LED dot-matrix displays.
//!
//! A text message becomes a sequence of 8x8 monochrome bitmaps, one per
//! display position: glyph lookup turns each character into a bitmap,
//! gap compaction shortens runs of blank columns between glyphs, and a
//! circular one-column left shift across the whole sequence produces the
//! scrolling animation.  All of it is pure bit-matrix logic; the hardware
//! transport that finally drives the display chain lives outside this crate.

pub mod bits;
pub mod compact;
pub mod encoding;
pub mod mappings;
pub mod scrolling;
pub mod transpose;

pub use scrolling::shift_all_rows_one_bit_left;

pub use compact::prepare_text;
pub use compact::remove_gaps_in_display_text;
pub use mappings::LED_SQUARE_MATRIX_DIM;
pub use mappings::MAX_DISPLAYS;
pub use mappings::SingleDisplayData;
pub use transpose::transpose_single_display_data;
