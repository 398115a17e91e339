//! The program's icons.

use crate::text::{cat2, trim, trimmed_text};
use vstd::prelude::*;

verus! {

/// An icon as pixels, four bytes each: red, green, blue and opacity, row by row.
pub struct IconImage {
    pub rgba: Vec<u8>,
    pub width: u32,
    pub height: u32,
}

/// The pixels, width and height of the PNG image that a file's bytes hold.
pub uninterp spec fn decoded(bytes: Seq<u8>) -> Option<(Seq<u8>, u32, u32)>;

/// A decoded image as a value.
pub open spec fn pixels(r: Option<(Vec<u8>, u32, u32)>) -> Option<(Seq<u8>, u32, u32)> {
    match r {
        Some((v, w, h)) => Some((v@, w, h)),
        None => None,
    }
}

/// `image::load_from_memory_with_format` for PNG, which consults no registry of formats
/// or decoders, with the image brought to eight bits a channel with opacity by
/// `to_rgba8`. Which bytes are which image is named, not stated.
#[verifier::external_body]
pub(crate) fn decode(bytes: &[u8]) -> (r: Option<(Vec<u8>, u32, u32)>)
    ensures
        pixels(r) == decoded(bytes@),
{
    let img = image::load_from_memory_with_format(bytes, image::ImageFormat::Png).ok()?.to_rgba8();
    let (w, h) = img.dimensions();
    Some((img.into_raw(), w, h))
}

/// Whether there are as many bytes as an image of that size takes.
pub open spec fn fits(bytes: nat, width: u32, height: u32) -> bool {
    bytes == 4 * (width * height)
}

/// An icon of given pixels; none where their number is not that of the size.
pub fn icon_of(rgba: Vec<u8>, width: u32, height: u32) -> (r: Option<IconImage>)
    ensures
        match r {
            Some(i) => fits(rgba@.len(), width, height) && i.rgba@ == rgba@ && i.width == width && i.height == height,
            None => !fits(rgba@.len(), width, height),
        },
{
    let n: u128 = rgba.len() as u128;
    assert(width * height <= 0xffff_ffff * 0xffff_ffff) by (nonlinear_arith)
        requires
            0 <= width <= 0xffff_ffff,
            0 <= height <= 0xffff_ffff,
    ;
    if n == 4 * (width as u128 * height as u128) { Some(IconImage { rgba, width, height }) } else { None }
}

/// The window's icon from the bytes of its file; none where they are no image.
pub fn window_icon(png: &[u8]) -> (r: Option<IconImage>)
    ensures
        match decoded(png@) {
            Some((px, w, h)) => if fits(px.len(), w, h) {
                r matches Some(i) && i.rgba@ == px && i.width == w && i.height == h
            } else {
                r is None
            },
            None => r is None,
        },
{
    match decode(png) {
        Some((rgba, w, h)) => icon_of(rgba, w, h),
        None => None,
    }
}

/// The title bar's icon as an address that holds the image itself.
pub fn system_icon_src(base64: &str) -> (r: String)
    ensures
        r@ == "data:image/png;base64,"@ + trimmed_text(base64@),
{
    let body: String = trim(base64);
    cat2("data:image/png;base64,", body.as_str())
}

} // verus!
