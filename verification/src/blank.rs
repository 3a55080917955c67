use vstd::prelude::*;

use crate::screen::ScreenInfo;

verus! {

#[verifier::external_type_specification]
#[verifier::external_body]
pub struct ExImageError(image::ImageError);

/// Why a blank layer could not be encoded.
#[derive(PartialEq, Eq, Structural, Debug, Clone, Copy)]
pub enum BlankLayerError {
    /// The encoder refused the panel's dimensions.
    Encoding,
}

/// The JPEG that `image`'s `JpegEncoder` makes of a one-colour RGB image.
pub uninterp spec fn solid_jpeg_bytes(width: u32, height: u32, quality: u8, rgb: Seq<u8>) -> Seq<u8>;

/// The PNG that `image` makes of a one-colour RGBA image, if it makes one.
pub uninterp spec fn solid_png_bytes(width: u32, height: u32, rgba: Seq<u8>) -> Option<Seq<u8>>;

/// The fill of a cleared JPEG layer: black.
pub open spec fn blank_rgb() -> Seq<u8> {
    seq![0u8, 0u8, 0u8]
}

/// The fill of a cleared PNG layer: fully transparent.
pub open spec fn blank_rgba() -> Seq<u8> {
    seq![0u8, 0u8, 0u8, 0u8]
}

/// Encodes a `width` x `height` RGB image filled with `rgb` with
/// `image::codecs::jpeg::JpegEncoder::new_with_quality` and `encode_image`.
/// Claimed: the bytes are `solid_jpeg_bytes` of the arguments, and the
/// encoder fails exactly when a side is zero or above 65535 (it writes into
/// a `Vec`, which cannot fail). The pixel buffer must fit in memory.
#[verifier::external_body]
fn encode_solid_jpeg(width: u32, height: u32, quality: u8, rgb: [u8; 3]) -> (r: Result<Vec<u8>, image::ImageError>)
    requires
        3 * (width as int) * (height as int) <= isize::MAX,
    ensures
        r is Ok <==> (1 <= width <= 65535 && 1 <= height <= 65535),
        r matches Ok(v) ==> v@ == solid_jpeg_bytes(width, height, quality, rgb@),
{
    let img = image::ImageBuffer::from_pixel(width, height, image::Rgb(rgb));
    let mut buf = Vec::new();
    match image::codecs::jpeg::JpegEncoder::new_with_quality(&mut buf, quality).encode_image(&img) {
        Ok(()) => Ok(buf),
        Err(e) => Err(e),
    }
}

/// Encodes a `width` x `height` RGBA image filled with `rgba` as PNG with
/// `ImageBuffer::write_to`. Claimed: the result is named `solid_png_bytes`
/// of the arguments, and a zero side is refused. The pixel buffer must fit
/// in memory.
#[verifier::external_body]
fn encode_solid_png(width: u32, height: u32, rgba: [u8; 4]) -> (r: Result<Vec<u8>, image::ImageError>)
    requires
        4 * (width as int) * (height as int) <= isize::MAX,
    ensures
        r is Ok <==> solid_png_bytes(width, height, rgba@) is Some,
        r matches Ok(v) ==> v@ == solid_png_bytes(width, height, rgba@).unwrap(),
        (width == 0 || height == 0) ==> r is Err,
{
    let img = image::ImageBuffer::from_pixel(width, height, image::Rgba(rgba));
    let mut buf = Vec::new();
    match img.write_to(&mut std::io::Cursor::new(&mut buf), image::ImageFormat::Png) {
        Ok(()) => Ok(buf),
        Err(e) => Err(e),
    }
}

/// The black JPEG that clears the panel's JPEG layer.
pub fn blank_jpeg_layer(screen: &ScreenInfo) -> (r: Result<Vec<u8>, BlankLayerError>)
    requires
        3 * (screen.width as int) * (screen.height as int) <= isize::MAX,
    ensures
        r is Ok <==> (1 <= screen.width <= 65535 && 1 <= screen.height <= 65535),
        r matches Ok(v) ==> v@ == solid_jpeg_bytes(screen.width, screen.height, screen.jpeg_quality, blank_rgb()),
        r matches Err(e) ==> e == BlankLayerError::Encoding,
{
    let black: [u8; 3] = [0u8, 0u8, 0u8];
    assert(black@ =~= blank_rgb());
    match encode_solid_jpeg(screen.width, screen.height, screen.jpeg_quality, black) {
        Ok(v) => Ok(v),
        Err(_) => Err(BlankLayerError::Encoding),
    }
}

/// The transparent PNG that clears the panel's PNG layer.
pub fn blank_png_layer(screen: &ScreenInfo) -> (r: Result<Vec<u8>, BlankLayerError>)
    requires
        4 * (screen.width as int) * (screen.height as int) <= isize::MAX,
    ensures
        r is Ok <==> solid_png_bytes(screen.width, screen.height, blank_rgba()) is Some,
        r matches Ok(v) ==> v@ == solid_png_bytes(screen.width, screen.height, blank_rgba()).unwrap(),
        r matches Err(e) ==> e == BlankLayerError::Encoding,
        (screen.width == 0 || screen.height == 0) ==> r is Err,
{
    let transparent: [u8; 4] = [0u8, 0u8, 0u8, 0u8];
    assert(transparent@ =~= blank_rgba());
    match encode_solid_png(screen.width, screen.height, transparent) {
        Ok(v) => Ok(v),
        Err(_) => Err(BlankLayerError::Encoding),
    }
}

} // verus!
