use image::{DynamicImage, ImageFormat, Rgb, RgbImage};
use preview_plugins::boundary::{flatten, RenderError, ResultPayload};
use preview_plugins::image_thumbnailer::{
    decode_image, describe, describe_image, encode_thumbnail, extract_metadata, init, preview_file,
    preview_image, render_metadata, render_thumbnail, resize_to_thumbnail, thumbnail_dimensions,
    JPEG_QUALITY, THUMBNAIL_SIDE,
};
use std::io::Cursor;

fn gradient(width: u32, height: u32) -> DynamicImage {
    let mut picture = RgbImage::new(width, height);
    for y in 0..height {
        for x in 0..width {
            picture.put_pixel(x, y, Rgb([(x % 256) as u8, (y % 256) as u8, ((x + y) % 256) as u8]));
        }
    }
    DynamicImage::ImageRgb8(picture)
}

fn encoded(picture: &DynamicImage, format: ImageFormat) -> Vec<u8> {
    let mut bytes = Vec::new();
    picture.write_to(&mut Cursor::new(&mut bytes), format).unwrap();
    bytes
}

fn png(width: u32, height: u32) -> Vec<u8> {
    encoded(&gradient(width, height), ImageFormat::Png)
}

fn thumbnail(bytes: &[u8]) -> ResultPayload {
    render_thumbnail(bytes).unwrap()
}

fn metadata(bytes: &[u8]) -> ResultPayload {
    render_metadata(bytes).unwrap()
}

fn until_zero(bytes: &[u8]) -> &[u8] {
    let end = bytes.iter().position(|b| *b == 0).unwrap_or(bytes.len());
    &bytes[..end]
}

fn jpeg_size(bytes: &[u8]) -> (u32, u32) {
    let picture = image::load_from_memory_with_format(bytes, ImageFormat::Jpeg).unwrap();
    (picture.width(), picture.height())
}

#[test]
fn thumbnailer_init_returns_zero() {
    assert_eq!(init(), 0);
}

#[test]
fn constants_of_the_thumbnail() {
    assert_eq!(THUMBNAIL_SIDE, 300);
    assert_eq!(JPEG_QUALITY, 85);
}

#[test]
fn image_that_fits_keeps_its_size() {
    assert_eq!(thumbnail_dimensions(100, 50, 300, 300), (100, 50));
    assert_eq!(thumbnail_dimensions(300, 300, 300, 300), (300, 300));
    assert_eq!(thumbnail_dimensions(1, 300, 300, 300), (1, 300));
    assert_eq!(thumbnail_dimensions(0, 0, 300, 300), (0, 0));
}

#[test]
fn wide_image_is_limited_by_its_width() {
    assert_eq!(thumbnail_dimensions(600, 400, 300, 300), (300, 200));
    assert_eq!(thumbnail_dimensions(301, 301, 300, 300), (300, 300));
    assert_eq!(thumbnail_dimensions(301, 200, 300, 300), (300, 199));
    assert_eq!(thumbnail_dimensions(4000, 3000, 300, 300), (300, 225));
}

#[test]
fn tall_image_is_limited_by_its_height() {
    assert_eq!(thumbnail_dimensions(400, 1000, 300, 300), (120, 300));
    assert_eq!(thumbnail_dimensions(200, 301, 300, 300), (199, 300));
    assert_eq!(thumbnail_dimensions(3000, 4000, 300, 300), (225, 300));
}

#[test]
fn halves_round_up_and_nothing_falls_below_one_pixel() {
    assert_eq!(thumbnail_dimensions(1000, 5, 300, 300), (300, 2));
    assert_eq!(thumbnail_dimensions(600, 1, 300, 300), (300, 1));
    assert_eq!(thumbnail_dimensions(1000, 4, 300, 300), (300, 1));
    assert_eq!(thumbnail_dimensions(1000, 1, 300, 300), (300, 1));
    assert_eq!(thumbnail_dimensions(1, 100000, 300, 300), (1, 300));
    assert_eq!(thumbnail_dimensions(0, 500, 300, 300), (1, 300));
    assert_eq!(thumbnail_dimensions(500, 0, 300, 300), (300, 1));
}

#[test]
fn boxes_that_are_not_square() {
    assert_eq!(thumbnail_dimensions(1000, 1000, 200, 100), (100, 100));
    assert_eq!(thumbnail_dimensions(1000, 500, 200, 150), (200, 100));
    assert_eq!(thumbnail_dimensions(500, 1000, 200, 150), (75, 150));
    assert_eq!(thumbnail_dimensions(u32::MAX, u32::MAX, 1, 1), (1, 1));
    assert_eq!(thumbnail_dimensions(u32::MAX, 1, u32::MAX - 1, u32::MAX), (u32::MAX - 1, 1));
}

#[test]
fn thumbnail_fits_fills_and_keeps_the_aspect_ratio() {
    for (width, height) in [(301u32, 300u32), (640, 480), (480, 640), (1920, 1080), (333, 1001), (5000, 7)] {
        let (w, h) = thumbnail_dimensions(width, height, 300, 300);
        assert!(1 <= w && w <= 300 && 1 <= h && h <= 300);
        assert_eq!(w.max(h), 300);
        let drift = (w as i64 * height as i64 - h as i64 * width as i64).abs();
        assert!(drift <= width.max(height) as i64);
    }
}

#[test]
fn resize_to_thumbnail_leaves_small_images_alone() {
    let small = gradient(120, 40);
    let thumbnail = resize_to_thumbnail(small.clone(), 300, 300);
    assert_eq!((thumbnail.width(), thumbnail.height()), (120, 40));
    assert_eq!(thumbnail.to_rgb8().into_raw(), small.to_rgb8().into_raw());
}

#[test]
fn resize_to_thumbnail_scales_large_images_down() {
    let thumbnail = resize_to_thumbnail(gradient(600, 400), 300, 300);
    assert_eq!((thumbnail.width(), thumbnail.height()), (300, 200));
    let tall = resize_to_thumbnail(gradient(400, 1000), 300, 300);
    assert_eq!((tall.width(), tall.height()), (120, 300));
    let narrow = resize_to_thumbnail(gradient(1000, 4), 300, 300);
    assert!(narrow.width() <= 300 && narrow.height() == 1);
}

#[test]
fn corrupt_bytes_are_not_an_image() {
    for bytes in [&b"this is not an image"[..], &[0x89, b'P', b'N', b'G', 1, 2, 3][..], &[0u8][..]] {
        assert_eq!(render_thumbnail(bytes).unwrap_err(), RenderError::NotAnImage);
        assert_eq!(render_metadata(bytes).unwrap_err(), RenderError::NotAnImage);
    }
    let mut cut = png(20, 20);
    cut.truncate(40);
    assert_eq!(render_thumbnail(&cut).unwrap_err(), RenderError::NotAnImage);
    assert_eq!(render_metadata(&cut).unwrap_err(), RenderError::NotAnImage);
}

#[test]
fn no_bytes_are_no_data() {
    assert_eq!(render_thumbnail(b"").unwrap_err(), RenderError::NoData);
    assert_eq!(render_metadata(b"").unwrap_err(), RenderError::NoData);
}

#[test]
fn raster_with_spare_samples_is_malformed() {
    let loose = RgbImage::from_raw(2, 2, vec![7u8; 100]).unwrap();
    let rendered = encode_thumbnail(&DynamicImage::ImageRgb8(loose));
    assert_eq!(rendered.unwrap_err(), RenderError::MalformedRaster);
    let tight = RgbImage::from_raw(2, 2, vec![7u8; 12]).unwrap();
    let payload = encode_thumbnail(&DynamicImage::ImageRgb8(tight)).unwrap();
    assert_eq!(payload.mime_type, "image/jpeg");
    assert_eq!(jpeg_size(&payload.data), (2, 2));
}

#[test]
fn failures_flatten_to_the_empty_payload_of_the_fallback_type() {
    for error in [
        RenderError::NoData,
        RenderError::NotAnImage,
        RenderError::MalformedRaster,
        RenderError::NoTheme,
        RenderError::NoSyntax,
    ] {
        let payload = flatten(Err(error), "application/octet-stream");
        assert!(payload.data.is_empty());
        assert_eq!(payload.mime_type, "application/octet-stream");
        let json = flatten(Err(error), "application/json");
        assert!(json.data.is_empty());
        assert_eq!(json.mime_type, "application/json");
    }
    let kept = flatten(
        Ok(ResultPayload { data: vec![1, 2, 3], mime_type: "image/jpeg".to_string() }),
        "application/octet-stream",
    );
    assert_eq!(kept.data, vec![1, 2, 3]);
    assert_eq!(kept.mime_type, "image/jpeg");
}

#[test]
fn corrupt_bytes_give_the_failure_payload() {
    for bytes in [&b"this is not an image"[..], &b""[..], &[0x89, b'P', b'N', b'G', 1, 2, 3][..]] {
        let payload = flatten(render_thumbnail(bytes), "application/octet-stream");
        assert!(payload.data.is_empty());
        assert_eq!(payload.mime_type, "application/octet-stream");
    }
}

#[test]
fn corrupt_bytes_give_empty_metadata() {
    for bytes in [&b"this is not an image"[..], &b""[..], &[0xFF, 0xD8, 0xFF, 0][..]] {
        let payload = flatten(render_metadata(bytes), "application/json");
        assert!(payload.data.is_empty());
        assert_eq!(payload.mime_type, "application/json");
    }
}

#[test]
fn large_image_becomes_a_jpeg_of_at_most_300_pixels() {
    let payload = thumbnail(&png(600, 400));
    assert_eq!(payload.mime_type, "image/jpeg");
    assert_eq!(&payload.data[..2], &[0xFF, 0xD8]);
    assert_eq!(&payload.data[payload.data.len() - 2..], &[0xFF, 0xD9]);
    assert_eq!(jpeg_size(&payload.data), (300, 200));
}

#[test]
fn tall_image_becomes_a_jpeg_of_at_most_300_pixels() {
    let payload = thumbnail(&png(350, 700));
    assert_eq!(payload.mime_type, "image/jpeg");
    assert_eq!(jpeg_size(&payload.data), (150, 300));
}

#[test]
fn small_image_is_encoded_at_its_own_size() {
    let payload = thumbnail(&png(40, 30));
    assert_eq!(payload.mime_type, "image/jpeg");
    assert_eq!(jpeg_size(&payload.data), (40, 30));
}

#[test]
fn thumbnail_is_what_the_encoder_writes_for_the_resized_pixels() {
    let source = gradient(640, 480);
    let payload = thumbnail(&encoded(&source, ImageFormat::Png));
    let resized = source.resize(300, 225, image::imageops::FilterType::Lanczos3).to_rgb8();
    let mut expected = Vec::new();
    image::codecs::jpeg::JpegEncoder::new_with_quality(&mut expected, 85)
        .encode(resized.as_raw(), 300, 225, image::ExtendedColorType::Rgb8)
        .unwrap();
    assert_eq!(payload.data, expected);
}

#[test]
fn other_formats_and_colour_types_are_previewed_too() {
    let grey = DynamicImage::ImageLuma8(gradient(320, 640).to_luma8());
    let payload = thumbnail(&encoded(&grey, ImageFormat::Bmp));
    assert_eq!(payload.mime_type, "image/jpeg");
    assert_eq!(jpeg_size(&payload.data), (150, 300));
    let translucent = DynamicImage::ImageRgba8(gradient(20, 10).to_rgba8());
    let small = thumbnail(&encoded(&translucent, ImageFormat::Png));
    assert_eq!(jpeg_size(&small.data), (20, 10));
}

#[test]
fn describe_writes_the_json_object() {
    assert_eq!(describe(3, 2, "Rgb8"), b"{\"width\":3,\"height\":2,\"format\":\"Rgb8\"}");
    assert_eq!(describe(0, 4294967295, ""), b"{\"width\":0,\"height\":4294967295,\"format\":\"\"}");
    assert_eq!(
        describe(1920, 1080, "Rgba16"),
        b"{\"width\":1920,\"height\":1080,\"format\":\"Rgba16\"}"
    );
}

#[test]
fn metadata_of_a_valid_image() {
    let payload = metadata(&png(600, 400));
    assert_eq!(payload.mime_type, "application/json");
    assert_eq!(payload.data, b"{\"width\":600,\"height\":400,\"format\":\"Rgb8\"}");
    let grey = DynamicImage::ImageLuma8(gradient(7, 5).to_luma8());
    let other = metadata(&encoded(&grey, ImageFormat::Png));
    assert_eq!(other.data, b"{\"width\":7,\"height\":5,\"format\":\"L8\"}");
    let deep = DynamicImage::ImageRgba16(gradient(2, 9).to_rgba16());
    let third = metadata(&encoded(&deep, ImageFormat::Png));
    assert_eq!(third.data, b"{\"width\":2,\"height\":9,\"format\":\"Rgba16\"}");
}

#[test]
fn preview_file_export_reads_the_image_from_memory() {
    let picture = png(600, 400);
    let mut memory = vec![0u8; 16];
    memory.extend_from_slice(&picture);
    memory.extend_from_slice(b"png");
    let outcome = preview_file(&memory, 16, picture.len() as i32, (16 + picture.len()) as i32, 3);
    assert_eq!(outcome.status, 0);
    assert_eq!(until_zero(&outcome.call.mime), b"image/jpeg");
    assert_eq!(outcome.call.data_len as usize, outcome.call.data.len());
    assert_eq!(jpeg_size(&outcome.call.data), (300, 200));
    assert_eq!(outcome.call.data, thumbnail(&picture).data);
}

#[test]
fn preview_file_export_on_corrupt_or_missing_data() {
    let memory = b"\0\0\0\0garbage bytes".to_vec();
    for (address, length) in [(4, 13), (0, 13), (4, 0), (4, -1)] {
        let outcome = preview_file(&memory, address, length, 0, 0);
        assert_eq!(outcome.status, 0);
        assert!(outcome.call.data.is_empty());
        assert_eq!(outcome.call.data_len, 0);
        assert_eq!(until_zero(&outcome.call.mime), b"application/octet-stream");
    }
}

#[test]
fn extract_metadata_export_reads_the_image_from_memory() {
    let picture = png(31, 17);
    let mut memory = vec![0u8; 8];
    memory.extend_from_slice(&picture);
    let outcome = extract_metadata(&memory, 8, picture.len() as i32, 0, 0);
    assert_eq!(outcome.status, 0);
    assert_eq!(until_zero(&outcome.call.mime), b"application/json");
    assert_eq!(outcome.call.data, b"{\"width\":31,\"height\":17,\"format\":\"Rgb8\"}");
    assert_eq!(outcome.call.data_len, 40);
}

#[test]
fn extract_metadata_export_on_corrupt_or_missing_data() {
    let memory = b"\0\0\0\0garbage bytes".to_vec();
    for (address, length) in [(4, 13), (0, 13), (4, 0), (4, i32::MIN)] {
        let outcome = extract_metadata(&memory, address, length, 4, 13);
        assert_eq!(outcome.status, 0);
        assert!(outcome.call.data.is_empty());
        assert_eq!(outcome.call.data_len, 0);
        assert_eq!(until_zero(&outcome.call.mime), b"application/json");
    }
}

#[test]
fn the_extension_hint_does_not_change_the_preview() {
    let picture = png(64, 64);
    let mut memory = vec![0u8; 4];
    memory.extend_from_slice(&picture);
    let plain = preview_file(&memory, 4, picture.len() as i32, 0, 0);
    let hinted = preview_file(&memory, 4, picture.len() as i32, 4, 3);
    let far = preview_file(&memory, 4, picture.len() as i32, i32::MAX, i32::MAX);
    assert_eq!(plain.call.data, hinted.call.data);
    assert_eq!(plain.call.data, far.call.data);
}

#[test]
fn image_calls_in_sequence_do_not_interfere() {
    let first = png(600, 400);
    let second = png(50, 500);
    let alone_first = thumbnail(&first).data;
    let alone_second = thumbnail(&second).data;
    let alone_meta = metadata(&second).data;

    let mut memory = vec![0u8; 4];
    memory.extend_from_slice(&first);
    let second_at = memory.len();
    memory.extend_from_slice(&second);

    let a = preview_file(&memory, 4, first.len() as i32, 0, 0);
    let broken = preview_file(&memory, 5, 20, 0, 0);
    let b = preview_file(&memory, second_at as i32, second.len() as i32, 0, 0);
    let m = extract_metadata(&memory, second_at as i32, second.len() as i32, 0, 0);
    let again = preview_file(&memory, 4, first.len() as i32, 0, 0);

    assert_eq!(a.call.data, alone_first);
    assert!(broken.call.data.is_empty());
    assert_eq!(b.call.data, alone_second);
    assert_eq!(m.call.data, alone_meta);
    assert_eq!(again.call.data, alone_first);
    assert_eq!(jpeg_size(&b.call.data), (30, 300));
}

#[test]
fn preview_image_prepares_the_hand_over() {
    let picture = png(90, 450);
    let outcome = preview_image(&picture);
    assert_eq!(outcome.status, 0);
    assert_eq!(outcome.call.data, thumbnail(&picture).data);
    assert_eq!(outcome.call.data_len as usize, outcome.call.data.len());
    assert_eq!(outcome.call.mime, b"image/jpeg\0");
    assert_eq!(jpeg_size(&outcome.call.data), (60, 300));
    let failed = preview_image(b"nothing to see");
    assert_eq!(failed.status, 0);
    assert!(failed.call.data.is_empty());
    assert_eq!(failed.call.data_len, 0);
    assert_eq!(failed.call.mime, b"application/octet-stream\0");
}

#[test]
fn describe_image_prepares_the_hand_over() {
    let outcome = describe_image(&png(12, 34));
    assert_eq!(outcome.status, 0);
    assert_eq!(outcome.call.data, b"{\"width\":12,\"height\":34,\"format\":\"Rgb8\"}");
    assert_eq!(outcome.call.data_len, 40);
    assert_eq!(outcome.call.mime, b"application/json\0");
    let failed = describe_image(b"");
    assert_eq!(failed.status, 0);
    assert!(failed.call.data.is_empty());
    assert_eq!(failed.call.data_len, 0);
    assert_eq!(failed.call.mime, b"application/json\0");
}

#[test]
fn thumbnail_of_any_large_image_fits_the_box() {
    for (width, height) in [(301u32, 301u32), (640, 480), (333, 1001), (1000, 4), (7, 900), (1200, 350)] {
        let blank = DynamicImage::new_luma8(width, height);
        let thumbnail = resize_to_thumbnail(blank, 300, 300);
        let (w, h) = (thumbnail.width(), thumbnail.height());
        assert!(1 <= w && w <= 300 && 1 <= h && h <= 300);
        let drift = (w as i64 * height as i64 - h as i64 * width as i64).abs();
        assert!(drift <= width.max(height) as i64);
    }
}

#[test]
fn box_of_another_size() {
    let thumbnail = resize_to_thumbnail(gradient(400, 200), 100, 100);
    assert_eq!((thumbnail.width(), thumbnail.height()), (100, 50));
    let kept = resize_to_thumbnail(gradient(40, 20), 40, 20);
    assert_eq!((kept.width(), kept.height()), (40, 20));
    let flat = resize_to_thumbnail(gradient(400, 200), 65535, 1);
    assert_eq!((flat.width(), flat.height()), (2, 1));
}

#[test]
fn box_without_room_gives_one_pixel() {
    assert_eq!(thumbnail_dimensions(500, 400, 0, 0), (1, 1));
    assert_eq!(thumbnail_dimensions(500, 400, 0, 300), (1, 1));
    assert_eq!(thumbnail_dimensions(500, 400, 300, 0), (1, 1));
    assert_eq!(thumbnail_dimensions(0, 0, 0, 0), (0, 0));
    let dot = resize_to_thumbnail(gradient(10, 10), 0, 0);
    assert_eq!((dot.width(), dot.height()), (1, 1));
}

#[test]
fn box_of_any_size_is_accepted() {
    let small = gradient(12, 8);
    let kept = resize_to_thumbnail(small.clone(), u32::MAX, u32::MAX);
    assert_eq!((kept.width(), kept.height()), (12, 8));
    assert_eq!(kept.to_rgb8().into_raw(), small.to_rgb8().into_raw());
    let wide = resize_to_thumbnail(gradient(12, 8), 70_000, 4);
    assert_eq!((wide.width(), wide.height()), (6, 4));
    let tall = resize_to_thumbnail(gradient(12, 8), 6, 4_000_000_000);
    assert_eq!((tall.width(), tall.height()), (6, 4));
}

#[test]
fn thumbnail_of_a_thumbnail_is_itself() {
    for (width, height, side) in [(640u32, 480u32, 300u32), (50, 700, 300), (1000, 4, 300), (90, 30, 7)] {
        let first = resize_to_thumbnail(gradient(width, height), side, side);
        let pixels = first.to_rgb8().into_raw();
        let size = (first.width(), first.height());
        let second = resize_to_thumbnail(first, side, side);
        assert_eq!((second.width(), second.height()), size);
        assert_eq!(second.to_rgb8().into_raw(), pixels);
    }
}

#[test]
fn thumbnail_is_never_larger_than_the_image() {
    for (width, height) in [(301u32, 1u32), (1, 301), (2, 4000), (4000, 2), (301, 301)] {
        let (w, h) = thumbnail_dimensions(width, height, 300, 300);
        assert!(1 <= w && w <= width && 1 <= h && h <= height);
        let thumbnail = resize_to_thumbnail(DynamicImage::new_luma8(width, height), 300, 300);
        assert!(1 <= thumbnail.width() && thumbnail.width() <= width);
        assert!(1 <= thumbnail.height() && thumbnail.height() <= height);
    }
}

#[test]
fn every_decodable_image_becomes_a_jpeg() {
    let sources = [
        encoded(&gradient(1, 1), ImageFormat::Png),
        encoded(&gradient(300, 300), ImageFormat::Png),
        encoded(&gradient(301, 7), ImageFormat::Bmp),
        encoded(&DynamicImage::ImageLumaA8(gradient(9, 500).to_luma_alpha8()), ImageFormat::Png),
        encoded(&DynamicImage::ImageRgb16(gradient(33, 44).to_rgb16()), ImageFormat::Png),
        encoded(&gradient(64, 64), ImageFormat::Jpeg),
        encoded(&gradient(20, 10), ImageFormat::Gif),
    ];
    for bytes in sources.iter() {
        let payload = thumbnail(bytes);
        assert_eq!(payload.mime_type, "image/jpeg");
        assert_eq!(&payload.data[..2], &[0xFF, 0xD8]);
        let (w, h) = jpeg_size(&payload.data);
        assert!(1 <= w && w <= 300 && 1 <= h && h <= 300);
        let outcome = preview_image(bytes);
        assert_eq!(outcome.call.mime, b"image/jpeg\0");
        assert_eq!(outcome.call.data, payload.data);
    }
}

#[test]
fn decode_image_tells_the_format_from_the_first_bytes() {
    for format in [ImageFormat::Png, ImageFormat::Jpeg, ImageFormat::Gif, ImageFormat::Bmp, ImageFormat::Tiff] {
        let bytes = encoded(&gradient(24, 16), format);
        let decoded = decode_image(&bytes).unwrap();
        assert_eq!((decoded.width(), decoded.height()), (24, 16));
        let expected = image::load_from_memory(&bytes).unwrap();
        assert_eq!(decoded.color(), expected.color());
        assert_eq!(decoded.to_rgb8().into_raw(), expected.to_rgb8().into_raw());
    }
    assert!(decode_image(b"").is_none());
    assert!(decode_image(b"plain text").is_none());
    let mut wrong = encoded(&gradient(8, 8), ImageFormat::Png);
    wrong.truncate(30);
    assert!(decode_image(&wrong).is_none());
    let mut other = encoded(&gradient(8, 8), ImageFormat::Png);
    other[..2].copy_from_slice(b"BM");
    assert!(decode_image(&other).is_none());
}

#[test]
fn encoded_thumbnail_keeps_the_aspect_ratio_within_one_pixel() {
    for (width, height) in [(600u32, 400u32), (333, 1001), (1000, 4), (29, 1160), (7, 900), (1201, 350), (301, 301)] {
        let (target_w, target_h) = thumbnail_dimensions(width, height, 300, 300);
        let (p, q) = if target_w as u64 * height as u64 <= target_h as u64 * width as u64 {
            (target_w as i64, width as i64)
        } else {
            (target_h as i64, height as i64)
        };
        let payload = thumbnail(&encoded(&DynamicImage::new_luma8(width, height), ImageFormat::Png));
        let (w, h) = jpeg_size(&payload.data);
        assert!(1 <= w && w <= 300 && 1 <= h && h <= 300);
        assert!((w as i64 * q - p * width as i64).abs() <= q);
        assert!((h as i64 * q - p * height as i64).abs() <= q);
    }
}
