//! The configuration of one layout job.

use vstd::prelude::*;

verus! {

/// Describes one layout job. All physical lengths are in tenths of a
/// millimeter; the engine never mutates a configuration it receives.
///
/// - `height_mm10`, `width_mm10`: target cell size for one tiled copy.
/// - `diff_mm10`: horizontal gap between adjacent columns.
/// - `dpi`: resolution used for every conversion of the job.
/// - `is_aspect_ratio`: if true, resizing keeps the source's proportions and
///   fits within the cell; if false, it stretches to exactly the cell size.
/// - `is_rotate`: if true, the paper's width and height are swapped when the
///   page canvas is allocated.
/// - `rows`, `cols`: number of tiled copies along each axis.
#[derive(Debug, Clone, PartialEq, Eq, Structural)]
pub struct ImageConfig {
    pub height_mm10: u32,
    pub width_mm10: u32,
    pub diff_mm10: u32,
    pub dpi: u32,
    pub is_aspect_ratio: bool,
    pub is_rotate: bool,
    pub rows: u32,
    pub cols: u32,
}

impl ImageConfig {
    /// The requested cell size, width first, in tenths of a millimeter.
    pub fn size(&self) -> (r: (u32, u32))
        ensures
            r == (self.width_mm10, self.height_mm10),
    {
        (self.width_mm10, self.height_mm10)
    }
}

impl Default for ImageConfig {
    /// A 22 mm by 32 mm cell with a 0.5 mm gap at 350 dpi, five rows of
    /// eight copies on an unrotated page, stretched to the exact cell size.
    fn default() -> (r: Self)
        ensures
            r == (ImageConfig {
                height_mm10: 320,
                width_mm10: 220,
                diff_mm10: 5,
                dpi: 350,
                is_aspect_ratio: false,
                is_rotate: false,
                rows: 5,
                cols: 8,
            }),
    {
        ImageConfig {
            height_mm10: 320,
            width_mm10: 220,
            diff_mm10: 5,
            dpi: 350,
            is_aspect_ratio: false,
            is_rotate: false,
            rows: 5,
            cols: 8,
        }
    }
}

} // verus!
