//! Image normalisation: an image that is larger than the configured bounds
//! is scaled down to fit them; one that fits is kept at its size.
//!
//! Decoding, scaling and encoding are the `image` crate's work. What this
//! module decides is whether to scale, and it is proved to decide so by the
//! image's width and height alone.

use crate::address::Encoding;
use crate::documents::Size;
use crate::extract::ElementError;
use vstd::prelude::*;

verus! {

/// `image::DynamicImage`, a decoded image. Its pixels are never looked at
/// here; it is carried from the decoder to the encoder.
#[verifier::external_type_specification]
#[verifier::external_body]
pub struct ExDynamicImage(image::DynamicImage);

/// `image::ImageError`, the reason why a codec gave up. It is passed on
/// unopened.
#[verifier::external_type_specification]
#[verifier::external_body]
pub struct ExImageError(image::ImageError);

/// A decoded image with its width and height.
///
/// The two numbers are read off the pixels when the picture is made and
/// never change afterwards.
pub struct Picture {
    width: u32,
    height: u32,
    pixels: image::DynamicImage,
}

/// An image as it is written to disk, with its width and height and those
/// it had when it arrived.
pub struct Normalized {
    pub body: Vec<u8>,
    pub width: u32,
    pub height: u32,
    pub source_width: u32,
    pub source_height: u32,
}

impl Picture {
    /// The width of the picture, in pixels.
    pub closed spec fn spec_width(&self) -> u32 {
        self.width
    }

    /// The height of the picture, in pixels.
    pub closed spec fn spec_height(&self) -> u32 {
        self.height
    }

    /// The width of the picture, in pixels.
    #[verifier::when_used_as_spec(spec_width)]
    pub fn width(&self) -> (r: u32)
        ensures
            r == self.spec_width(),
    {
        self.width
    }

    /// The height of the picture, in pixels.
    #[verifier::when_used_as_spec(spec_height)]
    pub fn height(&self) -> (r: u32)
        ensures
            r == self.spec_height(),
    {
        self.height
    }
}

/// The width and height that `DynamicImage::thumbnail` gives to an image of
/// `width` by `height` that is to fit within `max_width` by `max_height`.
///
/// The crate computes the two numbers from these four alone, in
/// floating-point arithmetic, which is why they have a name here and no
/// formula.
pub uninterp spec fn thumbnail_size(width: u32, height: u32, max_width: u32, max_height: u32) -> (
    u32,
    u32,
);

/// The width and height with which an image of `width` by `height` is kept
/// under the bounds `size`: its own where it lies within them, and those of
/// its thumbnail where it exceeds them.
pub open spec fn fitted_size(width: u32, height: u32, size: Size) -> (u32, u32) {
    if size.exceeded_by(width, height) {
        thumbnail_size(width, height, size.w, size.h)
    } else {
        (width, height)
    }
}

/// Decodes `body` with `image::load_from_memory`, which guesses the format
/// from the first bytes, and notes the width and height of what came out.
///
/// Nothing is claimed of the result, and the outcome has no name: whether
/// bytes decode depends, besides the bytes, on the format hooks registered
/// in the process and on the memory that the allocator grants.
#[verifier::external_body]
fn decode(body: &[u8]) -> Result<Picture, image::ImageError> {
    let pixels = image::load_from_memory(body)?;
    Ok(Picture { width: pixels.width(), height: pixels.height(), pixels })
}

/// Calls `DynamicImage::thumbnail`, which scales the image to the largest
/// size of the same aspect ratio that fits within `width` by `height`, and
/// never to less than one pixel in either direction.
///
/// Asked only of a picture that exceeds one of the bounds, so the result is
/// never larger than the picture itself. The contract names the size of the
/// result, which the crate derives from the picture's size and the bounds
/// and from nothing else, and claims that it fits the bounds where both are
/// at least one pixel. It claims nothing of the aspect ratio, which the
/// crate keeps up to rounding.
#[verifier::external_body]
fn thumbnail(picture: &Picture, width: u32, height: u32) -> (r: Picture)
    requires
        picture.width > width || picture.height > height,
    ensures
        (r.width, r.height) == thumbnail_size(picture.width, picture.height, width, height),
        width >= 1 && height >= 1 ==> r.width <= width && r.height <= height,
{
    let pixels = picture.pixels.thumbnail(width, height);
    Picture { width: pixels.width(), height: pixels.height(), pixels }
}

/// Calls `DynamicImage::write_to` with the format that stands for
/// `encoding`, on a buffer in memory. Nothing is claimed of the bytes.
#[verifier::external_body]
fn encode(picture: &Picture, encoding: Encoding) -> Result<Vec<u8>, image::ImageError> {
    let format = match encoding {
        Encoding::Jpeg => image::ImageFormat::Jpeg,
        Encoding::Png => image::ImageFormat::Png,
        Encoding::WebP => image::ImageFormat::WebP,
    };
    let mut out = std::io::Cursor::new(Vec::new());
    picture.pixels.write_to(&mut out, format)?;
    Ok(out.into_inner())
}

/// `picture`, scaled down if it exceeds `size` and as it is if not.
///
/// The result has the size that [`fitted_size`] gives, and so fits `size`
/// in both directions, provided `size` leaves room for a pixel at all.
pub fn fit(picture: Picture, size: Size) -> (r: Picture)
    ensures
        !size.exceeded_by(picture.width(), picture.height()) ==> r == picture,
        (r.width(), r.height()) == fitted_size(picture.width(), picture.height(), size),
        size.w >= 1 && size.h >= 1 ==> size.holds(r.width(), r.height()),
{
    let w = picture.width();
    let h = picture.height();
    if w > size.w || h > size.h {
        thumbnail(&picture, size.w, size.h)
    } else {
        picture
    }
}

/// The image in `img_raw`, decoded, fitted to `size` and written in
/// `encoding`.
///
/// The image leaves with the size that [`fitted_size`] gives for the size
/// it arrived with: an image that arrives within `size` keeps its width and
/// height, and one that arrives larger leaves with those of its thumbnail,
/// which lie within `size`, provided `size` leaves room for a pixel at all.
///
/// Fails with [`ElementError::Undecodable`] when the bytes do not decode and
/// with [`ElementError::Unencodable`] when the image cannot be written in
/// `encoding`. Whether they do is the codec's call on every input, and the
/// contract therefore promises success on none.
pub fn resized_img(img_raw: &[u8], size: Size, encoding: Encoding) -> (r: Result<
    Normalized,
    ElementError,
>)
    ensures
        r matches Ok(out) ==> {
            &&& (out.width, out.height) == fitted_size(out.source_width, out.source_height, size)
            &&& size.holds(out.source_width, out.source_height) ==> out.width == out.source_width
                && out.height == out.source_height
            &&& size.w >= 1 && size.h >= 1 ==> size.holds(out.width, out.height)
        },
        r matches Err(e) ==> e == ElementError::Undecodable || e == ElementError::Unencodable,
{
    let picture = match decode(img_raw) {
        Ok(picture) => picture,
        Err(_) => {
            return Err(ElementError::Undecodable);
        },
    };
    let source_width = picture.width();
    let source_height = picture.height();
    let img = fit(picture, size);
    match encode(&img, encoding) {
        Ok(body) => Ok(
            Normalized {
                body,
                width: img.width(),
                height: img.height(),
                source_width,
                source_height,
            },
        ),
        Err(_) => Err(ElementError::Unencodable),
    }
}

} // verus!
