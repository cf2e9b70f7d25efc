use tile_print::config::ImageConfig;
use tile_print::layout::{process_image, LayoutError};
use tile_print::paper::PaperSize;
use tile_print::raster::Raster;

fn solid(width: u32, height: u32, rgba: [u8; 4]) -> Raster {
    let mut data = Vec::new();
    for _ in 0..(width * height) {
        data.extend_from_slice(&rgba);
    }
    Raster::from_parts(width, height, data).unwrap()
}

fn pixel(canvas: &Raster, x: u32, y: u32) -> [u8; 4] {
    [
        canvas.get_channel(x, y, 0),
        canvas.get_channel(x, y, 1),
        canvas.get_channel(x, y, 2),
        canvas.get_channel(x, y, 3),
    ]
}

const WHITE: [u8; 4] = [255, 255, 255, 255];
const BLANK: [u8; 4] = [0, 0, 0, 0];

// At 254 dpi a length in tenths of a millimeter converts to exactly that
// many pixels, which keeps the expected coordinates easy to read.
fn small_config() -> ImageConfig {
    ImageConfig {
        height_mm10: 2,
        width_mm10: 2,
        diff_mm10: 1,
        dpi: 254,
        is_aspect_ratio: false,
        is_rotate: false,
        rows: 1,
        cols: 2,
    }
}

#[test]
fn stretch_stamps_two_columns() {
    let source = solid(1, 1, WHITE);
    let canvas = process_image(&small_config(), &PaperSize::A5, &source).unwrap();
    // The page is A5 portrait at 254 dpi: 148 mm by 210 mm.
    assert_eq!(canvas.width, 1480);
    assert_eq!(canvas.height, 2100);
    // First 2x2 stamp at the origin.
    assert_eq!(pixel(&canvas, 0, 0), WHITE);
    assert_eq!(pixel(&canvas, 1, 1), WHITE);
    // One pixel of gap, then the second stamp.
    assert_eq!(pixel(&canvas, 2, 0), BLANK);
    assert_eq!(pixel(&canvas, 3, 0), WHITE);
    assert_eq!(pixel(&canvas, 4, 1), WHITE);
    assert_eq!(pixel(&canvas, 5, 0), BLANK);
    // No vertical gap is ever inserted, and row 1 ends after two pixels.
    assert_eq!(pixel(&canvas, 0, 2), BLANK);
}

// With `is_aspect_ratio` a wide source keeps its proportions: a 2:1 image
// offered a 4 by 4 cell comes out 4 by 2, filling the cell on one axis.
#[test]
fn fit_preserves_aspect_ratio() {
    let mut config = small_config();
    config.width_mm10 = 4;
    config.height_mm10 = 4;
    config.is_aspect_ratio = true;
    config.cols = 1;
    let source = solid(2, 1, WHITE);
    let canvas = process_image(&config, &PaperSize::A5, &source).unwrap();
    assert_eq!(pixel(&canvas, 0, 0), WHITE);
    assert_eq!(pixel(&canvas, 3, 1), WHITE);
    // The copy is only two pixels tall and four wide.
    assert_eq!(pixel(&canvas, 0, 2), BLANK);
    assert_eq!(pixel(&canvas, 4, 0), BLANK);
}

// A grid with no rows or no columns stamps nothing: the canvas stays at
// its zero-initialized background.
#[test]
fn zero_grid_leaves_canvas_blank() {
    let source = solid(1, 1, WHITE);
    for (rows, cols) in [(0u32, 2u32), (1, 0), (0, 0)] {
        let mut config = small_config();
        config.rows = rows;
        config.cols = cols;
        let canvas = process_image(&config, &PaperSize::A5, &source).unwrap();
        assert!(canvas.data.iter().all(|&b| b == 0));
    }
}

// Stamps that run past the page edge are clipped pixel by pixel, never an
// error and never a wraparound.
#[test]
fn stamps_clip_at_page_edge() {
    let mut config = small_config();
    config.width_mm10 = 1000;  // a 1000 px wide cell on a 1480 px wide page
    let source = solid(1, 1, WHITE);
    let canvas = process_image(&config, &PaperSize::A5, &source).unwrap();
    // First stamp covers columns 0..1000.
    assert_eq!(pixel(&canvas, 999, 0), WHITE);
    assert_eq!(pixel(&canvas, 1000, 0), BLANK);
    // The second stamp starts after one pixel of gap and is cut off at the
    // page's right edge.
    assert_eq!(pixel(&canvas, 1001, 0), WHITE);
    assert_eq!(pixel(&canvas, 1479, 1), WHITE);
}

// Identical inputs give byte-identical canvases.
#[test]
fn layout_is_deterministic() {
    let source = solid(3, 2, [17, 200, 9, 255]);
    let first = process_image(&small_config(), &PaperSize::A5, &source).unwrap();
    let second = process_image(&small_config(), &PaperSize::A5, &source).unwrap();
    assert_eq!(first.width, second.width);
    assert_eq!(first.height, second.height);
    assert_eq!(first.data, second.data);
}

// Rotating the paper swaps the canvas axes.
#[test]
fn rotated_paper_swaps_canvas_axes() {
    let mut config = small_config();
    config.is_rotate = true;
    let source = solid(1, 1, WHITE);
    let canvas = process_image(&config, &PaperSize::A5, &source).unwrap();
    assert_eq!(canvas.width, 2100);
    assert_eq!(canvas.height, 1480);
}

// A cell dimension that converts to zero pixels is a configuration error,
// reported as such rather than producing a degenerate page.
#[test]
fn zero_dimension_is_invalid() {
    let source = solid(1, 1, WHITE);
    let mut config = small_config();
    config.width_mm10 = 0;
    let r = process_image(&config, &PaperSize::A5, &source);
    assert!(matches!(r, Err(LayoutError::InvalidDimensions)));

    let mut config = small_config();
    config.dpi = 0;
    let r = process_image(&config, &PaperSize::A5, &source);
    assert!(matches!(r, Err(LayoutError::InvalidDimensions)));
}

// The end-to-end job sheet: a 22 mm by 32 mm cell with a 0.5 mm gap at
// 350 dpi, five rows of eight copies on portrait A4, stretched exactly.
#[test]
fn default_job_on_a4() {
    let config = ImageConfig::default();
    assert_eq!(
        config,
        ImageConfig {
            height_mm10: 320,
            width_mm10: 220,
            diff_mm10: 5,
            dpi: 350,
            is_aspect_ratio: false,
            is_rotate: false,
            rows: 5,
            cols: 8,
        }
    );
    assert_eq!(config.size(), (220, 320));
    let source = solid(4, 4, WHITE);
    let canvas = process_image(&config, &PaperSize::A4, &source).unwrap();
    assert_eq!(canvas.width, 2894);
    assert_eq!(canvas.height, 4093);
    // Cells are 303 by 441 px with a 7 px gap, so column origins are 310
    // px apart and row origins 441 px apart.
    assert_eq!(pixel(&canvas, 0, 0), WHITE);
    assert_eq!(pixel(&canvas, 302, 440), WHITE);
    assert_eq!(pixel(&canvas, 303, 0), BLANK);
    assert_eq!(pixel(&canvas, 309, 0), BLANK);
    assert_eq!(pixel(&canvas, 310, 0), WHITE);
    // The last of the forty copies.
    assert_eq!(pixel(&canvas, 7 * 310 + 302, 4 * 441 + 440), WHITE);
    // Nothing beyond the last column or row.
    assert_eq!(pixel(&canvas, 0, 2205), BLANK);
    assert_eq!(pixel(&canvas, 2893, 4092), BLANK);
}
