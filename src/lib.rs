//! Turns a decoded 8-bit image into a table of values scaled into the unit
//! interval, and encodes such a table as CSV.
//!
//! Scaled values are held exactly, as fractions over 255; turning them into
//! floating-point text is left to the caller.
pub mod grid;
pub mod normalize;
pub mod raster;
pub mod table;

pub use grid::{
    column_major_scaling_8c, legacy_red_table_8c, min_max_scaling_image8c,
    min_max_scaling_image8g, red_table_8c, TableError,
};
pub use normalize::{min_max_scaling_8c, min_max_scaling_8g, Normalized, LEVEL_MAX, LEVEL_MIN};
pub use raster::{GrayRaster, RasterError, RgbPixel, RgbRaster};
pub use table::{encode_table, EncodeError};
