//! The image plugin: a JPEG thumbnail of an encoded image, and a small JSON
//! description of it.
//!
//! Decoding, resampling and encoding come from `image`. What is decided here is
//! when to scale, to which size, what is encoded, and what the JSON says.

use vstd::prelude::*;
use image::DynamicImage;
use vstd::utf8::*;
use crate::boundary::{
    address_of, buffer_bytes, buffer_in_memory, deliver, flatten, flattened, hands_over,
    lemma_buffer_ignores_other_memory, read_buffer, rendered_view, view_buffer, ExportOutcome,
    PayloadView, RenderError, ResultPayload,
};
use crate::image_api::{
    color_label, color_name, decoded_as, dimensions, encode_jpeg, fitting_scale, guess_format,
    guessed_format, image_size, jpeg_bytes, load_with_format, raster_is_exact, resize, resized,
    rgb8_raster, to_rgb8, within_one_pixel,
};
use crate::text::{decimal_digits, push_decimal, push_text};

verus! {

/// The longest side a thumbnail may have, in pixels.
pub const THUMBNAIL_SIDE: u32 = 300;

/// The quality at which thumbnails are encoded.
pub const JPEG_QUALITY: u8 = 85;

/// `value * numerator / denominator`, rounded to the nearest integer with halves
/// rounded up.
pub open spec fn scaled(value: int, numerator: int, denominator: int) -> int
    recommends
        denominator > 0,
{
    let exact = value * numerator;
    if 2 * (exact % denominator) >= denominator {
        exact / denominator + 1
    } else {
        exact / denominator
    }
}

/// Whether the width is the side that decides the scale: fitting the width into
/// `max_width` shrinks the image at least as much as fitting the height into
/// `max_height` would.
pub open spec fn width_decides(width: int, height: int, max_width: int, max_height: int) -> bool {
    width > 0 && (height == 0 || max_width * height <= max_height * width)
}

/// `side`, or one where `side` is less: no side of a thumbnail is shorter than a
/// pixel.
pub open spec fn at_least_one(side: int) -> int {
    if side < 1 {
        1
    } else {
        side
    }
}

/// The size of the thumbnail of a `width` by `height` image in a box of
/// `max_width` by `max_height`.
///
/// An image that fits keeps its size. Any other is scaled by the one ratio that
/// makes the deciding side fill the box; the other side is rounded to the
/// nearest pixel, and neither falls below one.
pub open spec fn thumbnail_size(width: int, height: int, max_width: int, max_height: int) -> (
    int,
    int,
) {
    if width <= max_width && height <= max_height {
        (width, height)
    } else if width_decides(width, height, max_width, max_height) {
        (at_least_one(max_width), at_least_one(scaled(height, max_width, width)))
    } else {
        (at_least_one(scaled(width, max_height, height)), at_least_one(max_height))
    }
}

/// The image that `bytes` hold: what decoding them gives in the format that their
/// first bytes tell, or `None` where no format is told or decoding fails. Only
/// the formats that are compiled into `image` are told.
pub open spec fn decoded_image(bytes: Seq<u8>) -> Option<DynamicImage> {
    match guessed_format(bytes) {
        Some(format) => decoded_as(bytes, format),
        None => None,
    }
}

/// Whether both sides of `small` are within one pixel of the sides of `size`
/// times the fraction `numerator / denominator`.
pub open spec fn scaled_by(
    size: (u32, u32),
    small: (u32, u32),
    numerator: int,
    denominator: int,
) -> bool {
    &&& denominator > 0
    &&& numerator >= 0
    &&& within_one_pixel(size.0 as int, small.0 as int, (numerator, denominator))
    &&& within_one_pixel(size.1 as int, small.1 as int, (numerator, denominator))
}

/// Whether `small` has the aspect ratio of `size` to within one pixel: there is
/// one scale that takes both sides of `size` to within one pixel of the sides of
/// `small`.
pub open spec fn keeps_aspect(size: (u32, u32), small: (u32, u32)) -> bool {
    exists|numerator: int, denominator: int|
        #[trigger] scaled_by(size, small, numerator, denominator)
}

/// The thumbnail of a decoded image: the image itself where it fits into the
/// box, and otherwise what resampling to the thumbnail size gives.
pub open spec fn thumbnail_of(
    image: DynamicImage,
    max_width: u32,
    max_height: u32,
) -> DynamicImage {
    let size = image_size(image);
    if size.0 <= max_width && size.1 <= max_height {
        image
    } else {
        let target = thumbnail_size(
            size.0 as int,
            size.1 as int,
            max_width as int,
            max_height as int,
        );
        resized(image, target.0 as u32, target.1 as u32)
    }
}

/// What encoding a decoded image gives: its 8-bit RGB raster as a JPEG, or a
/// failure where the raster does not hold three samples for each pixel.
pub open spec fn encoded_outcome(image: DynamicImage) -> Result<PayloadView, RenderError> {
    let raster = rgb8_raster(image);
    if raster.2.len() == 3 * raster.0 * raster.1 {
        Ok(
            PayloadView {
                data: jpeg_bytes(raster.2, raster.0, raster.1, JPEG_QUALITY),
                mime_type: "image/jpeg"@,
            },
        )
    } else {
        Err(RenderError::MalformedRaster)
    }
}

/// What holds of the thumbnail of every image that was decoded from bytes: the
/// width and height that are encoded are those of the thumbnail, they fit the
/// thumbnail box, an image that did not fit has become no larger and has no
/// side below one pixel, the aspect ratio is kept to within one pixel, and the
/// encoding is a JPEG.
pub open spec fn thumbnail_is_encoded(image: DynamicImage) -> bool {
    let size = image_size(image);
    let thumbnail = thumbnail_of(image, THUMBNAIL_SIDE, THUMBNAIL_SIDE);
    let raster = rgb8_raster(thumbnail);
    &&& (raster.0, raster.1) == image_size(thumbnail)
    &&& raster.0 <= THUMBNAIL_SIDE && raster.1 <= THUMBNAIL_SIDE
    &&& size.0 > THUMBNAIL_SIDE || size.1 > THUMBNAIL_SIDE ==> {
        &&& 1 <= raster.0 <= at_least_one(size.0 as int)
        &&& 1 <= raster.1 <= at_least_one(size.1 as int)
    }
    &&& size.0 >= 1 && size.1 >= 1 ==> keeps_aspect(size, (raster.0, raster.1))
    &&& encoded_outcome(thumbnail) == Ok::<PayloadView, RenderError>(
        PayloadView {
            data: jpeg_bytes(raster.2, raster.0, raster.1, JPEG_QUALITY),
            mime_type: "image/jpeg"@,
        },
    )
}

/// What previewing `bytes` gives: the JPEG of the thumbnail, or the reason why
/// there is none.
pub open spec fn thumbnail_outcome(bytes: Seq<u8>) -> Result<PayloadView, RenderError> {
    if bytes.len() == 0 {
        Err(RenderError::NoData)
    } else {
        match decoded_image(bytes) {
            None => Err(RenderError::NotAnImage),
            Some(image) => encoded_outcome(thumbnail_of(image, THUMBNAIL_SIDE, THUMBNAIL_SIDE)),
        }
    }
}

/// The JSON object that describes an image, as UTF-8.
pub open spec fn metadata_json(width: u32, height: u32, format: Seq<char>) -> Seq<u8> {
    encode_utf8("{\"width\":"@) + decimal_digits(width as nat) + encode_utf8(",\"height\":"@)
        + decimal_digits(height as nat) + encode_utf8(",\"format\":\""@) + encode_utf8(format)
        + encode_utf8("\"}"@)
}

/// What describing `bytes` gives: the JSON object labelled `application/json`,
/// or the reason why there is none.
pub open spec fn metadata_outcome(bytes: Seq<u8>) -> Result<PayloadView, RenderError> {
    if bytes.len() == 0 {
        Err(RenderError::NoData)
    } else {
        match decoded_image(bytes) {
            None => Err(RenderError::NotAnImage),
            Some(image) => Ok(
                PayloadView {
                    data: metadata_json(
                        image_size(image).0,
                        image_size(image).1,
                        color_label(image),
                    ),
                    mime_type: "application/json"@,
                },
            ),
        }
    }
}

/// Readiness probe of the plugin.
pub fn init() -> (status: i32)
    ensures
        status == 0,
{
    0
}

/// Decodes the image that `input` holds: tells the format from the first bytes
/// and decodes in that format.
pub fn decode_image(input: &[u8]) -> (decoded: Option<DynamicImage>)
    ensures
        decoded == decoded_image(input@),
        decoded matches Some(image) ==> raster_is_exact(image),
{
    let format = match guess_format(input) {
        Ok(format) => format,
        Err(_) => {
            return None;
        },
    };
    match load_with_format(input, format) {
        Ok(image) => Some(image),
        Err(_) => None,
    }
}

/// Computes `value * numerator / denominator` rounded half up.
fn scale_side(value: u32, numerator: u32, denominator: u32) -> (side: u64)
    requires
        denominator > 0,
    ensures
        side == scaled(value as int, numerator as int, denominator as int),
{
    proof {
        lemma_product_fits(value, numerator);
    }
    let exact: u64 = value as u64 * numerator as u64;
    let quotient: u64 = exact / denominator as u64;
    let remainder: u64 = exact % denominator as u64;
    if 2 * remainder >= denominator as u64 {
        quotient + 1
    } else {
        quotient
    }
}

/// Computes the size of the thumbnail of a `width` by `height` image.
pub fn thumbnail_dimensions(width: u32, height: u32, max_width: u32, max_height: u32) -> (size: (
    u32,
    u32,
))
    ensures
        (size.0 as int, size.1 as int) == thumbnail_size(
            width as int,
            height as int,
            max_width as int,
            max_height as int,
        ),
        width <= max_width && height <= max_height ==> size == (width, height),
        width > max_width || height > max_height ==> {
            &&& 1 <= size.0 <= at_least_one(max_width as int)
            &&& 1 <= size.1 <= at_least_one(max_height as int)
            &&& size.0 <= at_least_one(width as int)
            &&& size.1 <= at_least_one(height as int)
        },
{
    if width <= max_width && height <= max_height {
        return (width, height);
    }
    proof {
        lemma_product_fits(max_width, height);
        lemma_product_fits(max_height, width);
        lemma_thumbnail_is_no_larger(
            width as int,
            height as int,
            max_width as int,
            max_height as int,
        );
    }
    let by_width = width > 0 && (height == 0 || max_width as u64 * height as u64
        <= max_height as u64 * width as u64);
    if by_width {
        let other = scale_side(height, max_width, width);
        proof {
            lemma_scaled_stays_below(
                height as int,
                max_width as int,
                width as int,
                max_height as int,
            );
        }
        (if max_width < 1 { 1 } else { max_width }, if other < 1 { 1 } else { other as u32 })
    } else {
        assert(height > 0);
        let other = scale_side(width, max_height, height);
        proof {
            lemma_scaled_stays_below(
                width as int,
                max_height as int,
                height as int,
                max_width as int,
            );
        }
        (if other < 1 { 1 } else { other as u32 }, if max_height < 1 { 1 } else { max_height })
    }
}

/// Scales an image down to fit into a box, keeping its aspect ratio. An image
/// that already fits is returned as it is; no image is ever scaled up.
pub fn resize_to_thumbnail(image: DynamicImage, max_width: u32, max_height: u32) -> (thumbnail:
    DynamicImage)
    ensures
        thumbnail == thumbnail_of(image, max_width, max_height),
        image_size(image).0 <= max_width && image_size(image).1 <= max_height ==> thumbnail
            == image,
        image_size(thumbnail).0 <= at_least_one(max_width as int),
        image_size(thumbnail).1 <= at_least_one(max_height as int),
        image_size(image).0 > max_width || image_size(image).1 > max_height ==> {
            &&& 1 <= image_size(thumbnail).0 <= at_least_one(image_size(image).0 as int)
            &&& 1 <= image_size(thumbnail).1 <= at_least_one(image_size(image).1 as int)
        },
        image_size(image).0 >= 1 && image_size(image).1 >= 1 ==> keeps_aspect(
            image_size(image),
            image_size(thumbnail),
        ),
        raster_is_exact(image) ==> raster_is_exact(thumbnail),
{
    let (width, height) = dimensions(&image);
    if width <= max_width && height <= max_height {
        proof {
            let unit = (1int, 1int);
            assert(within_one_pixel(width as int, width as int, unit));
            assert(within_one_pixel(height as int, height as int, unit));
            assert(scaled_by((width, height), (width, height), 1, 1));
        }
        return image;
    }
    let (new_width, new_height) = thumbnail_dimensions(width, height, max_width, max_height);
    let thumbnail = resize(&image, new_width, new_height);
    proof {
        if width >= 1 && height >= 1 {
            let scale = fitting_scale((width, height), new_width, new_height);
            assert(scale.0 >= 0 && scale.1 > 0);
            assert(scaled_by((width, height), image_size(thumbnail), scale.0, scale.1));
        }
    }
    thumbnail
}

/// Writes the JSON object that describes an image.
pub fn describe(width: u32, height: u32, format: &str) -> (json: Vec<u8>)
    ensures
        json@ == metadata_json(width, height, format@),
{
    let mut json: Vec<u8> = Vec::new();
    push_text(&mut json, "{\"width\":");
    push_decimal(&mut json, width);
    push_text(&mut json, ",\"height\":");
    push_decimal(&mut json, height);
    push_text(&mut json, ",\"format\":\"");
    push_text(&mut json, format);
    push_text(&mut json, "\"}");
    json
}

/// Converts a decoded image to 8-bit RGB and encodes it as JPEG. What the
/// encoder reports is not looked at: the payload is whatever it has written.
pub fn encode_thumbnail(image: &DynamicImage) -> (rendered: Result<ResultPayload, RenderError>)
    ensures
        rendered_view(rendered) == encoded_outcome(*image),
        (rgb8_raster(*image).0, rgb8_raster(*image).1) == image_size(*image),
{
    let (width, height, pixels) = to_rgb8(image);
    proof {
        lemma_product_fits(width, height);
        assert(3 * (width * height) == 3 * width * height) by (nonlinear_arith);
    }
    if pixels.len() as u128 != 3 * (width as u128 * height as u128) {
        return Err(RenderError::MalformedRaster);
    }
    let (data, _) = encode_jpeg(pixels.as_slice(), width, height, JPEG_QUALITY);
    Ok(ResultPayload { data, mime_type: String::from_str("image/jpeg") })
}

/// The thumbnail renderer: decodes `input`, scales it into the thumbnail box and
/// encodes the result.
pub fn render_thumbnail(input: &[u8]) -> (rendered: Result<ResultPayload, RenderError>)
    ensures
        rendered_view(rendered) == thumbnail_outcome(input@),
        input@.len() > 0 ==> (decoded_image(input@) matches Some(image) ==> rendered is Ok
            && thumbnail_is_encoded(image)),
{
    if input.len() == 0 {
        return Err(RenderError::NoData);
    }
    let decoded = match decode_image(input) {
        Some(image) => image,
        None => {
            return Err(RenderError::NotAnImage);
        },
    };
    let thumbnail = resize_to_thumbnail(decoded, THUMBNAIL_SIDE, THUMBNAIL_SIDE);
    encode_thumbnail(&thumbnail)
}

/// The metadata renderer: decodes `input` and describes it.
pub fn render_metadata(input: &[u8]) -> (rendered: Result<ResultPayload, RenderError>)
    ensures
        rendered_view(rendered) == metadata_outcome(input@),
{
    if input.len() == 0 {
        return Err(RenderError::NoData);
    }
    let decoded = match decode_image(input) {
        Some(image) => image,
        None => {
            return Err(RenderError::NotAnImage);
        },
    };
    let (width, height) = dimensions(&decoded);
    let format = color_name(&decoded);
    Ok(
        ResultPayload {
            data: describe(width, height, format.as_str()),
            mime_type: String::from_str("application/json"),
        },
    )
}

/// Previews the image in `input` and prepares the hand-over: the thumbnail, or
/// nothing of unknown type where there is none. The status is zero either way.
pub fn preview_image(input: &[u8]) -> (outcome: ExportOutcome)
    ensures
        outcome.status == 0,
        hands_over(
            outcome.call,
            flattened(thumbnail_outcome(input@), "application/octet-stream"@),
        ),
        input@.len() > 0 ==> (decoded_image(input@) matches Some(image)
            ==> thumbnail_is_encoded(image)),
{
    deliver(flatten(render_thumbnail(input), "application/octet-stream"))
}

/// Describes the image in `input` and prepares the hand-over: the JSON object,
/// or an empty one where there is none. The status is zero either way.
pub fn describe_image(input: &[u8]) -> (outcome: ExportOutcome)
    ensures
        outcome.status == 0,
        hands_over(outcome.call, flattened(metadata_outcome(input@), "application/json"@)),
{
    deliver(flatten(render_metadata(input), "application/json"))
}

/// The export behind `preview_file`: reads the image from `memory` and hands its
/// thumbnail over. The extension hint is not read.
pub fn preview_file(
    memory: &[u8],
    data_ptr: i32,
    data_len: i32,
    _ext_ptr: i32,
    _ext_len: i32,
) -> (outcome: ExportOutcome)
    requires
        buffer_in_memory(memory@, data_ptr, data_len),
    ensures
        outcome.status == 0,
        hands_over(
            outcome.call,
            flattened(
                thumbnail_outcome(buffer_bytes(memory@, data_ptr, data_len)),
                "application/octet-stream"@,
            ),
        ),
        buffer_bytes(memory@, data_ptr, data_len).len() > 0 ==> (decoded_image(
            buffer_bytes(memory@, data_ptr, data_len),
        ) matches Some(image) ==> thumbnail_is_encoded(image)),
{
    preview_image(read_buffer(memory, view_buffer(data_ptr, data_len)))
}

/// The export behind `extract_metadata`: reads the image from `memory` and hands
/// its description over. The extension hint is not read.
pub fn extract_metadata(
    memory: &[u8],
    data_ptr: i32,
    data_len: i32,
    _ext_ptr: i32,
    _ext_len: i32,
) -> (outcome: ExportOutcome)
    requires
        buffer_in_memory(memory@, data_ptr, data_len),
    ensures
        outcome.status == 0,
        hands_over(
            outcome.call,
            flattened(
                metadata_outcome(buffer_bytes(memory@, data_ptr, data_len)),
                "application/json"@,
            ),
        ),
{
    describe_image(read_buffer(memory, view_buffer(data_ptr, data_len)))
}

/// How far a thumbnail size is from the exact proportions of the image, measured
/// in pixels of the side that does not decide and scaled by the deciding side.
pub open spec fn aspect_error(width: int, height: int, size: (int, int)) -> int {
    let drift = size.0 * height - size.1 * width;
    if drift < 0 {
        -drift
    } else {
        drift
    }
}

/// An image that does not fit its box gets a thumbnail that does: no side is
/// longer than the box or shorter than one pixel, the deciding side fills the
/// box, and the other side is within one pixel of the exact proportion.
pub proof fn lemma_thumbnail_fits_and_keeps_aspect(
    width: int,
    height: int,
    max_width: int,
    max_height: int,
)
    requires
        width >= 1,
        height >= 1,
        max_width >= 1,
        max_height >= 1,
        width > max_width || height > max_height,
    ensures
        ({
            let size = thumbnail_size(width, height, max_width, max_height);
            &&& 1 <= size.0 <= max_width
            &&& 1 <= size.1 <= max_height
            &&& size.0 == max_width || size.1 == max_height
            &&& width_decides(width, height, max_width, max_height) ==> aspect_error(
                width,
                height,
                size,
            ) <= width
            &&& !width_decides(width, height, max_width, max_height) ==> aspect_error(
                width,
                height,
                size,
            ) <= height
        }),
{
    let size = thumbnail_size(width, height, max_width, max_height);
    if width_decides(width, height, max_width, max_height) {
        lemma_scaled_stays_below(height, max_width, width, max_height);
        lemma_scaled_is_close(height, max_width, width);
        let side = size.1;
        assert(-width <= max_width * height - side * width <= width) by (nonlinear_arith)
            requires
                (side - 1) * width <= height * max_width <= (side + 1) * width,
        ;
    } else {
        lemma_scaled_stays_below(width, max_height, height, max_width);
        lemma_scaled_is_close(width, max_height, height);
        let side = size.0;
        assert(-height <= side * height - max_height * width <= height) by (nonlinear_arith)
            requires
                (side - 1) * height <= width * max_height <= (side + 1) * height,
        ;
    }
}

/// In a square box the longer side of the thumbnail is the side of the box.
pub proof fn lemma_thumbnail_fills_square(width: int, height: int, side: int)
    requires
        width >= 1,
        height >= 1,
        side >= 1,
        width > side || height > side,
    ensures
        ({
            let size = thumbnail_size(width, height, side, side);
            (if size.0 >= size.1 {
                size.0
            } else {
                size.1
            }) == side
        }),
{
    lemma_thumbnail_fits_and_keeps_aspect(width, height, side, side);
}

/// A preview is a function of the image bytes alone: two memories that agree
/// inside the buffer give the same thumbnail and the same description, whatever
/// else they hold and whatever was previewed before.
pub proof fn lemma_preview_ignores_other_memory(
    first: Seq<u8>,
    second: Seq<u8>,
    data_ptr: i32,
    data_len: i32,
)
    requires
        buffer_in_memory(first, data_ptr, data_len),
        buffer_in_memory(second, data_ptr, data_len),
        forall|i: int|
            address_of(data_ptr) <= i < address_of(data_ptr) + data_len ==> first[i] == second[i],
    ensures
        thumbnail_outcome(buffer_bytes(first, data_ptr, data_len)) == thumbnail_outcome(
            buffer_bytes(second, data_ptr, data_len),
        ),
        metadata_outcome(buffer_bytes(first, data_ptr, data_len)) == metadata_outcome(
            buffer_bytes(second, data_ptr, data_len),
        ),
{
    lemma_buffer_ignores_other_memory(first, second, data_ptr, data_len);
}

/// Rounding moves a scaled side by less than one pixel, also where the result
/// is raised to one: `denominator` times the result is within `denominator` of
/// `value * numerator`.
pub proof fn lemma_scaled_is_close(value: int, numerator: int, denominator: int)
    requires
        value >= 0,
        numerator >= 0,
        denominator > 0,
    ensures
        ({
            let side = if scaled(value, numerator, denominator) < 1 {
                1
            } else {
                scaled(value, numerator, denominator)
            };
            (side - 1) * denominator <= value * numerator <= (side + 1) * denominator
        }),
{
    let exact = value * numerator;
    let quotient = exact / denominator;
    let remainder = exact % denominator;
    assert(exact >= 0) by (nonlinear_arith)
        requires
            value >= 0,
            numerator >= 0,
            exact == value * numerator,
    ;
    vstd::arithmetic::div_mod::lemma_fundamental_div_mod(exact, denominator);
    vstd::arithmetic::div_mod::lemma_div_pos_is_pos(exact, denominator);
    vstd::arithmetic::div_mod::lemma_mod_bound(exact, denominator);
    let side = if scaled(value, numerator, denominator) < 1 {
        1
    } else {
        scaled(value, numerator, denominator)
    };
    assert((side - 1) * denominator <= exact <= (side + 1) * denominator) by (nonlinear_arith)
        requires
            exact == denominator * quotient + remainder,
            0 <= remainder < denominator,
            0 <= quotient,
            side == quotient || side == quotient + 1,
            side == quotient + 1 ==> 2 * remainder >= denominator || quotient == 0,
    ;
}

/// Scaling down never enlarges: the thumbnail of an image that does not fit its
/// box has no side longer than the image's own, a side of length zero counted
/// as one.
pub proof fn lemma_thumbnail_is_no_larger(width: int, height: int, max_width: int, max_height: int)
    requires
        width >= 0,
        height >= 0,
        max_width >= 0,
        max_height >= 0,
        width > max_width || height > max_height,
    ensures
        thumbnail_size(width, height, max_width, max_height).0 <= at_least_one(width),
        thumbnail_size(width, height, max_width, max_height).1 <= at_least_one(height),
{
    if width_decides(width, height, max_width, max_height) {
        assert(width > max_width) by (nonlinear_arith)
            requires
                width > 0,
                height >= 0,
                max_width >= 0,
                max_height >= 0,
                width > max_width || height > max_height,
                height == 0 || max_width * height <= max_height * width,
        ;
        assert(max_width * height <= height * width) by (nonlinear_arith)
            requires
                max_width <= width,
                height >= 0,
        ;
        lemma_scaled_stays_below(height, max_width, width, height);
    } else {
        assert(height > max_height && height > 0) by (nonlinear_arith)
            requires
                width >= 0,
                height >= 0,
                max_width >= 0,
                max_height >= 0,
                width > max_width || height > max_height,
                !(width > 0 && (height == 0 || max_width * height <= max_height * width)),
        ;
        assert(max_height * width <= width * height) by (nonlinear_arith)
            requires
                max_height <= height,
                width >= 0,
        ;
        lemma_scaled_stays_below(width, max_height, height, width);
    }
}

/// The product of two 32-bit values fits in 64 bits with room to spare.
proof fn lemma_product_fits(a: u32, b: u32)
    ensures
        0 <= a * b <= 0xFFFF_FFFE_0000_0001,
{
    assert(0 <= a * b <= 0xFFFF_FFFF * 0xFFFF_FFFF) by (nonlinear_arith)
        requires
            0 <= a <= 0xFFFF_FFFF,
            0 <= b <= 0xFFFF_FFFF,
    ;
}

/// Scaling the side that does not decide never takes it out of the box: with
/// `limit * value <= bound * denominator` the rounded `value * limit /
/// denominator` is at most `bound`.
pub proof fn lemma_scaled_stays_below(value: int, limit: int, denominator: int, bound: int)
    requires
        value >= 0,
        limit >= 0,
        denominator > 0,
        bound >= 0,
        limit * value <= bound * denominator,
    ensures
        0 <= scaled(value, limit, denominator) <= bound,
{
    let exact = value * limit;
    let quotient = exact / denominator;
    let remainder = exact % denominator;
    assert(exact >= 0) by (nonlinear_arith)
        requires
            value >= 0,
            limit >= 0,
            exact == value * limit,
    ;
    assert(exact == limit * value) by (nonlinear_arith)
        requires
            exact == value * limit,
    ;
    vstd::arithmetic::div_mod::lemma_fundamental_div_mod(exact, denominator);
    vstd::arithmetic::div_mod::lemma_div_pos_is_pos(exact, denominator);
    vstd::arithmetic::div_mod::lemma_mod_bound(exact, denominator);
    assert(quotient <= bound && (quotient == bound ==> remainder == 0)) by (nonlinear_arith)
        requires
            exact == denominator * quotient + remainder,
            0 <= remainder < denominator,
            exact <= bound * denominator,
            denominator > 0,
    ;
}

} // verus!
