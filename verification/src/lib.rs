//! Recolouring of raster and vector images onto a fixed palette: nearest-colour
//! matching over caller-supplied perceptual distances, error-diffusion
//! dithering in fixed-point arithmetic, and the palette bookkeeping around both.

pub mod color;
pub mod colorschemes;
pub mod colour_library;
pub mod convert;
pub mod ditherer;
pub mod error;
pub mod hex;
pub mod img;
pub mod nearest;
pub mod palette;
pub mod pixel;
pub mod quantize;
pub mod raster;
pub mod rgb;
pub mod table;
pub mod text;
pub mod vector;
