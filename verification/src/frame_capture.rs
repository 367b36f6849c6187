//! Screenshot thumbnails for save slots: the RGBA8 pixels read back from a
//! frame are scaled down to the thumbnail size and encoded as PNG.
use vstd::prelude::*;

use image::ImageEncoder;

use crate::gpu_context::RenderError;
use crate::strings::{decimal, push_decimal};

verus! {

/// Thumbnail width in pixels (16:9 with the height).
pub const THUMB_WIDTH: u32 = 320;

/// Thumbnail height in pixels.
pub const THUMB_HEIGHT: u32 = 180;

/// The PNG file the `image` crate's PNG encoder writes for a `width`×`height`
/// RGBA8 image, or `None` when the encoder refuses it.
pub uninterp spec fn png_encoding(width: u32, height: u32, rgba: Seq<u8>) -> Option<Seq<u8>>;

/// Encodes an RGBA8 image as PNG with `image::codecs::png::PngEncoder::write_image`
/// (default compression and filter).  The contract claims the bytes written are
/// the named encoding, and an error exactly when the encoder refuses the image;
/// the error is the encoder's message.  The buffer must hold exactly four bytes
/// a pixel: the encoder panics otherwise.
#[verifier::external_body]
fn encode_png(rgba: &[u8], width: u32, height: u32) -> (r: Result<Vec<u8>, String>)
    requires
        rgba@.len() == width * height * 4,
    ensures
        match r {
            Ok(b) => png_encoding(width, height, rgba@) == Some(b@),
            Err(_) => png_encoding(width, height, rgba@) is None,
        },
{
    let mut out: Vec<u8> = Vec::new();
    let res = image::codecs::png::PngEncoder::new(&mut out).write_image(
        rgba,
        width,
        height,
        image::ExtendedColorType::Rgba8,
    );
    match res {
        Ok(()) => Ok(out),
        Err(e) => Err(e.to_string()),
    }
}

/// The pixels `image::DynamicImage::resize_exact` with the Lanczos3 filter
/// makes of a `width`×`height` RGBA8 image scaled to exactly
/// `new_width`×`new_height` (the aspect ratio is not kept).
pub uninterp spec fn lanczos3_resized(width: u32, height: u32, rgba: Seq<u8>, new_width: u32, new_height: u32) -> Seq<u8>;

/// Scales an RGBA8 image to exactly `new_width`×`new_height` with
/// `image::DynamicImage::resize_exact` and the Lanczos3 filter.  The contract
/// claims the result is the named scaling and that it holds four bytes for
/// each of the `new_width * new_height` pixels, as the buffer `image`
/// allocates for the scaled image does.  The new buffer's length must fit a
/// `usize`: `image` panics otherwise.
#[verifier::external_body]
fn resize_exact_lanczos3(rgba: Vec<u8>, width: u32, height: u32, new_width: u32, new_height: u32) -> (r: Vec<u8>)
    requires
        rgba@.len() == width * height * 4,
        new_width * new_height * 4 <= usize::MAX,
    ensures
        r@ == lanczos3_resized(width, height, rgba@, new_width, new_height),
        r@.len() == new_width * new_height * 4,
{
    let img = image::DynamicImage::ImageRgba8(image::RgbaImage::from_raw(width, height, rgba).unwrap());
    img.resize_exact(new_width, new_height, image::imageops::FilterType::Lanczos3).to_rgba8().into_raw()
}

/// The message for pixel data too short for the frame size.
pub open spec fn short_frame_message(width: u32, height: u32) -> Seq<char> {
    "帧截图失败：无法从 RGBA 数据构建图像（"@ + decimal(width as nat) + "x"@ + decimal(height as nat) + "）"@
}

/// Turns the RGBA8 pixels of a `width`×`height` frame into a PNG thumbnail of
/// exactly [`THUMB_WIDTH`]×[`THUMB_HEIGHT`] pixels (Lanczos3 scaling).  Bytes
/// beyond the frame's `width * height * 4` are ignored; fewer bytes than that
/// is an error, and so is a PNG encoder failure.
pub fn thumbnail_png(rgba: Vec<u8>, width: u32, height: u32) -> (r: Result<Vec<u8>, RenderError>)
    ensures
        if rgba@.len() < width * height * 4 {
            r matches Err(RenderError::Generic(m)) && m@ == short_frame_message(width, height)
        } else {
            let px = lanczos3_resized(
                width,
                height,
                rgba@.subrange(0, width * height * 4),
                THUMB_WIDTH,
                THUMB_HEIGHT,
            );
            match png_encoding(THUMB_WIDTH, THUMB_HEIGHT, px) {
                Some(png) => r matches Ok(b) && b@ == png,
                None => r matches Err(RenderError::Generic(_)),
            }
        },
{
    assert((width as int) * (height as int) * 4 <= u128::MAX) by (nonlinear_arith)
        requires
            width <= u32::MAX,
            height <= u32::MAX,
    ;
    let needed: u128 = (width as u128) * (height as u128) * 4;
    if (rgba.len() as u128) < needed {
        let mut m = "帧截图失败：无法从 RGBA 数据构建图像（".to_owned();
        push_decimal(&mut m, width as u64);
        m.append("x");
        push_decimal(&mut m, height as u64);
        m.append("）");
        return Err(RenderError::Generic(m));
    }
    let mut frame = rgba;
    frame.truncate(needed as usize);
    assert(frame@ == rgba@.subrange(0, width * height * 4));
    let px = resize_exact_lanczos3(frame, width, height, THUMB_WIDTH, THUMB_HEIGHT);
    match encode_png(px.as_slice(), THUMB_WIDTH, THUMB_HEIGHT) {
        Ok(b) => Ok(b),
        Err(e) => {
            let mut m = "帧截图失败：PNG 编码错误：".to_owned();
            m.append(e.as_str());
            Err(RenderError::Generic(m))
        },
    }
}

} // verus!
