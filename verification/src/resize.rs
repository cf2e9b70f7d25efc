//! Resizing the source image to the cell size.
//!
//! The resampling itself is done by the `image` crate; its exact pixel
//! output has no short description, so it is given a name here and the rest
//! of the engine is specified over that name.

use vstd::prelude::*;

verus! {

/// What `image::DynamicImage::resize` returns for an RGBA buffer `data` of
/// size `w` by `h` and a bounding box `bw` by `bh`: the new width, the new
/// height, and the new RGBA bytes. The result depends on the arguments
/// alone.
pub uninterp spec fn fit_resize(data: Seq<u8>, w: int, h: int, bw: int, bh: int) -> (
    int,
    int,
    Seq<u8>,
);

/// What `image::DynamicImage::resize_exact` returns for an RGBA buffer
/// `data` of size `w` by `h` resized to exactly `nw` by `nh`: the new RGBA
/// bytes. The result depends on the arguments alone.
pub uninterp spec fn stretch_resize(data: Seq<u8>, w: int, h: int, nw: int, nh: int) -> Seq<u8>;

/// Relies on `image::DynamicImage::resize` with the Lanczos filter: the
/// image is scaled to the largest size that fits within the `box_w` by
/// `box_h` bounds while preserving its aspect ratio, so both result
/// dimensions are at least one and at most the box.
#[verifier::external_body]
pub(crate) fn resize_to_fit(data: &Vec<u8>, w: u32, h: u32, box_w: u32, box_h: u32) -> (r: (
    u32,
    u32,
    Vec<u8>,
))
    requires
        data@.len() == 4 * ((w as int) * (h as int)),
        w >= 1,
        h >= 1,
        box_w >= 1,
        box_h >= 1,
        4 * ((box_w as int) * (box_h as int)) <= usize::MAX,
        16 * ((w as int) * (box_h as int)) <= usize::MAX,
    ensures
        (r.0 as int, r.1 as int, r.2@) == fit_resize(
            data@,
            w as int,
            h as int,
            box_w as int,
            box_h as int,
        ),
        1 <= r.0 <= box_w,
        1 <= r.1 <= box_h,
        r.2@.len() == 4 * ((r.0 as int) * (r.1 as int)),
{
    let img = image::RgbaImage::from_raw(w, h, data.clone()).unwrap();
    let resized = image::DynamicImage::ImageRgba8(img)
        .resize(box_w, box_h, image::imageops::FilterType::Lanczos3)
        .into_rgba8();
    (resized.width(), resized.height(), resized.into_raw())
}

/// Relies on `image::DynamicImage::resize_exact` with the Lanczos filter:
/// the image is scaled to exactly `new_w` by `new_h`, ignoring its aspect
/// ratio.
#[verifier::external_body]
pub(crate) fn resize_to_exact(data: &Vec<u8>, w: u32, h: u32, new_w: u32, new_h: u32) -> (r: Vec<
    u8,
>)
    requires
        data@.len() == 4 * ((w as int) * (h as int)),
        w >= 1,
        h >= 1,
        new_w >= 1,
        new_h >= 1,
        4 * ((new_w as int) * (new_h as int)) <= usize::MAX,
        16 * ((w as int) * (new_h as int)) <= usize::MAX,
    ensures
        r@ == stretch_resize(data@, w as int, h as int, new_w as int, new_h as int),
        r@.len() == 4 * ((new_w as int) * (new_h as int)),
{
    let img = image::RgbaImage::from_raw(w, h, data.clone()).unwrap();
    let resized = image::DynamicImage::ImageRgba8(img)
        .resize_exact(new_w, new_h, image::imageops::FilterType::Lanczos3)
        .into_rgba8();
    resized.into_raw()
}

} // verus!
