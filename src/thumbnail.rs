//! Small previews of decoded images, as PNG data URIs.

use vstd::prelude::*;
use image::DynamicImage;
use crate::analyzer::{base64_len, base64_standard, thumbnail_data_uri};
use crate::text::concat;

verus! {

#[verifier::external_type_specification]
#[verifier::external_body]
pub struct ExDynamicImage(DynamicImage);

/// Edge of the box that a thumbnail fits in, in pixels.
pub const THUMBNAIL_SIZE: u32 = 64;

/// Relies on image's `DynamicImage::resize` with the triangle filter: a new
/// image scaled to fit the box, its aspect ratio kept.
#[verifier::external_body]
fn resize_to_fit(img: &DynamicImage, edge: u32) -> (r: DynamicImage) {
    img.resize(edge, edge, image::imageops::FilterType::Triangle)
}

/// Relies on image's `DynamicImage::write_to` in the PNG format: the bytes
/// of the encoded image, or the message of the encoder's error.
#[verifier::external_body]
fn encode_png(img: &DynamicImage) -> (r: Result<Vec<u8>, String>) {
    let mut png = Vec::new();
    img.write_to(&mut std::io::Cursor::new(&mut png), image::ImageFormat::Png)
        .map(|()| png)
        .map_err(|e| e.to_string())
}

/// A preview of `img`, fitted into a 64-pixel box and encoded as a PNG data
/// URI, or why the encoding failed.
pub fn generate_thumbnail(img: &DynamicImage) -> (r: Result<String, String>)
    ensures
        match r {
            Ok(s) => exists|png: Seq<u8>| s@ == "data:image/png;base64,"@ + base64_standard(png),
            Err(e) => exists|t: Seq<char>| e@ == "Failed to encode thumbnail: "@ + t,
        },
{
    let small = resize_to_fit(img, THUMBNAIL_SIZE);
    match encode_png(&small) {
        Ok(png) => {
            if png.len() > usize::MAX / 2 {
                return Err(concat("Failed to encode thumbnail: ", "the preview is too large"));
            }
            let uri = thumbnail_data_uri(png.as_slice());
            Ok(uri)
        },
        Err(e) => Err(concat("Failed to encode thumbnail: ", e.as_str())),
    }
}

} // verus!
