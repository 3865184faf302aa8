//! The calls this library makes into `image`, each with the contract that the
//! verified code relies on.
//!
//! Nothing in this file is proved. A decoded image and an image format are
//! opaque values here; what a call returns for them is given a name, and the
//! contracts add only the few facts about sizes and sample counts that the
//! crate's source shows.

use vstd::prelude::*;
use image::codecs::jpeg::JpegEncoder;
use image::imageops::FilterType;
use image::{DynamicImage, ExtendedColorType, GenericImageView, ImageError, ImageFormat};

verus! {

/// `image::DynamicImage`, carried as an opaque value.
#[verifier::external_type_specification]
#[verifier::external_body]
pub struct ExDynamicImage(DynamicImage);

/// `image::ImageError`, carried as an opaque value.
#[verifier::external_type_specification]
#[verifier::external_body]
pub struct ExImageError(ImageError);

/// `image::ImageFormat`, carried as an opaque value.
#[verifier::external_type_specification]
#[verifier::external_body]
pub struct ExImageFormat(ImageFormat);

/// The format that `image::guess_format` tells from the first bytes of `bytes`,
/// or `None` where it knows none.
pub uninterp spec fn guessed_format(bytes: Seq<u8>) -> Option<ImageFormat>;

/// The image that `image::load_from_memory_with_format` decodes from `bytes`
/// read as `format`, or `None` where it reports an error.
pub uninterp spec fn decoded_as(bytes: Seq<u8>, format: ImageFormat) -> Option<DynamicImage>;

/// Width and height of `image` in pixels.
pub uninterp spec fn image_size(image: DynamicImage) -> (u32, u32);

/// The name of the colour type of `image` as its `Debug` form writes it.
pub uninterp spec fn color_label(image: DynamicImage) -> Seq<char>;

/// The image that `DynamicImage::resize` makes of `image` for the bounds
/// `width` and `height` with the Lanczos filter of window 3.
pub uninterp spec fn resized(image: DynamicImage, width: u32, height: u32) -> DynamicImage;

/// Width, height and raw samples of `image` converted to 8-bit RGB.
pub uninterp spec fn rgb8_raster(image: DynamicImage) -> (u32, u32, Seq<u8>);

/// The bytes that the JPEG encoder has written for the 8-bit RGB samples
/// `pixels` of a `width` by `height` image at `quality`, whether or not it
/// finished.
pub uninterp spec fn jpeg_bytes(pixels: Seq<u8>, width: u32, height: u32, quality: u8) -> Seq<u8>;

/// Whether the 8-bit RGB raster of `image` holds exactly three samples for each
/// of its pixels.
pub open spec fn raster_is_exact(image: DynamicImage) -> bool {
    rgb8_raster(image).2.len() == 3 * rgb8_raster(image).0 * rgb8_raster(image).1
}

/// Calls `image::guess_format`.
///
/// Trusted: the function compares the start of the bytes with the signatures
/// that are compiled into `image` and looks at nothing else.
#[verifier::external_body]
pub(crate) fn guess_format(bytes: &[u8]) -> (guessed: Result<ImageFormat, ImageError>)
    ensures
        match guessed {
            Ok(format) => guessed_format(bytes@) == Some(format),
            Err(_) => guessed_format(bytes@).is_none(),
        },
{
    image::guess_format(bytes)
}

/// Calls `image::load_from_memory_with_format`.
///
/// Trusted: for a format that is given, the reader makes the decoder that is
/// compiled into `image` for it and consults no registry of the process, so the
/// image depends on the bytes and the format alone. Such a decoder fills a
/// buffer that is allocated for exactly the pixels of the image, so the raster
/// of the decoded image is exact.
#[verifier::external_body]
pub(crate) fn load_with_format(bytes: &[u8], format: ImageFormat) -> (loaded: Result<
    DynamicImage,
    ImageError,
>)
    ensures
        match loaded {
            Ok(image) => decoded_as(bytes@, format) == Some(image) && raster_is_exact(image),
            Err(_) => decoded_as(bytes@, format).is_none(),
        },
{
    image::load_from_memory_with_format(bytes, format)
}

/// Calls `GenericImageView::dimensions` on a decoded image.
#[verifier::external_body]
pub(crate) fn dimensions(image: &DynamicImage) -> (size: (u32, u32))
    ensures
        size == image_size(*image),
{
    image.dimensions()
}

/// Formats `DynamicImage::color` with `{:?}`.
#[verifier::external_body]
pub(crate) fn color_name(image: &DynamicImage) -> (name: String)
    ensures
        name@ == color_label(*image),
{
    format!("{:?}", image.color())
}

/// The scale that fits an image of `size` into the bounds `width` and `height`:
/// the smaller of `width / size.0` and `height / size.1`, as numerator and
/// denominator.
pub open spec fn fitting_scale(size: (u32, u32), width: u32, height: u32) -> (int, int) {
    if width * size.1 <= height * size.0 {
        (width as int, size.0 as int)
    } else {
        (height as int, size.1 as int)
    }
}

/// Whether `small` is within one pixel of `side` times the fraction `scale`.
pub open spec fn within_one_pixel(side: int, small: int, scale: (int, int)) -> bool {
    -scale.1 <= small * scale.1 - scale.0 * side <= scale.1
}

/// Whether both sides of `small` are within one pixel of the sides of `size`
/// times the scale that fits `size` into the bounds.
pub open spec fn scaled_to_fit(
    size: (u32, u32),
    width: u32,
    height: u32,
    small: (u32, u32),
) -> bool {
    &&& within_one_pixel(size.0 as int, small.0 as int, fitting_scale(size, width, height))
    &&& within_one_pixel(size.1 as int, small.1 as int, fitting_scale(size, width, height))
}

/// Calls `DynamicImage::resize` with `FilterType::Lanczos3`.
///
/// Trusted: the method keeps the aspect ratio and scales to the largest size
/// that fits within the bounds. It multiplies both sides of the image by the
/// smaller of the two ratios of bound to side, rounds each to the nearest pixel
/// and raises it to one where it is less, so each side of the result is within
/// one pixel of the exact product. The result is a copy of the image where the
/// bounds are its own size, and is sampled into a buffer made for the new size
/// otherwise, so it has an exact raster where the image has one.
#[verifier::external_body]
pub(crate) fn resize(image: &DynamicImage, width: u32, height: u32) -> (scaled: DynamicImage)
    requires
        1 <= width,
        1 <= height,
    ensures
        scaled == resized(*image, width, height),
        1 <= image_size(scaled).0 <= width,
        1 <= image_size(scaled).1 <= height,
        image_size(*image).0 >= 1 && image_size(*image).1 >= 1 ==> scaled_to_fit(
            image_size(*image),
            width,
            height,
            image_size(scaled),
        ),
        raster_is_exact(*image) ==> raster_is_exact(scaled),
{
    image.resize(width, height, FilterType::Lanczos3)
}

/// Calls `DynamicImage::to_rgb8` and takes the buffer apart into its width, its
/// height and its raw samples.
///
/// Trusted: the conversion keeps the size of the image. Nothing is claimed of
/// the number of samples.
#[verifier::external_body]
pub(crate) fn to_rgb8(image: &DynamicImage) -> (raster: (u32, u32, Vec<u8>))
    ensures
        (raster.0, raster.1, raster.2@) == rgb8_raster(*image),
        (raster.0, raster.1) == image_size(*image),
{
    let buffer = image.to_rgb8();
    (buffer.width(), buffer.height(), buffer.into_raw())
}

/// Makes a `JpegEncoder` over a fresh buffer with `JpegEncoder::new_with_quality`
/// and calls `JpegEncoder::encode` on 8-bit RGB samples. Returns the buffer
/// together with what `encode` reported.
///
/// `encode` panics unless there are exactly three samples for each pixel.
#[verifier::external_body]
pub(crate) fn encode_jpeg(pixels: &[u8], width: u32, height: u32, quality: u8) -> (encoded: (
    Vec<u8>,
    Result<(), ImageError>,
))
    requires
        pixels@.len() == 3 * width * height,
    ensures
        encoded.0@ == jpeg_bytes(pixels@, width, height, quality),
{
    let mut output: Vec<u8> = Vec::new();
    let outcome = JpegEncoder::new_with_quality(&mut output, quality).encode(
        pixels,
        width,
        height,
        ExtendedColorType::Rgb8,
    );
    (output, outcome)
}

} // verus!
