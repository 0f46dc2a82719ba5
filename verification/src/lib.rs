//! Conversion of a textual indexed image into an RGB raster.
//!
//! The text names a palette and a grid of palette indices. The library reads
//! it line by line, resolves every index to its colour and hands the resulting
//! pixel buffer to a PNG encoder.
//!
//! A text has this form, one item on each line:
//!
//! ```text
//! indeximage
//! <width>
//! <height>
//! <number of colours>
//! <red> <green> <blue>      once for each colour
//! <index> <index> ...       once for each row, as many indices as the width
//! ```

pub mod color;
pub mod convert;
pub mod cursor;
pub mod encode;
pub mod failure;
pub mod header;
pub mod number;
pub mod palette;
pub mod pixels;
