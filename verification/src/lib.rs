//! A page-layout engine for printing grids of image stickers.
//!
//! One source image is resized to a physical cell size and stamped as a
//! regular grid onto a blank page-sized canvas, clipping at the page edge.
//! Physical lengths (paper dimensions, cell size, gap) are carried as whole
//! tenths of a millimeter and converted to pixels through a DPI setting.

pub mod config;
pub mod layout;
pub mod naming;
pub mod paper;
pub mod raster;
pub mod resize;
pub mod units;
