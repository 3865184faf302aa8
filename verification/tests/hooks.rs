use image::hooks::{register_decoding_hook, register_format_detection_hook, GenericReader};
use image::{DynamicImage, ImageDecoder, ImageError, ImageFormat, ImageResult};
use preview_plugins::boundary::RenderError;
use preview_plugins::image_thumbnailer::{
    decode_image, describe_image, preview_image, render_metadata, render_thumbnail,
};
use std::io::Cursor;

const PNG_SIGNATURE: [u8; 8] = [0x89, b'P', b'N', b'G', 0x0D, 0x0A, 0x1A, 0x0A];

fn refuse<'a>(_reader: GenericReader<'a>) -> ImageResult<Box<dyn ImageDecoder + 'a>> {
    Err(ImageError::IoError(std::io::Error::other("refused by the hook")))
}

fn png(width: u32, height: u32) -> Vec<u8> {
    let mut bytes = Vec::new();
    DynamicImage::new_rgb8(width, height)
        .write_to(&mut Cursor::new(&mut bytes), ImageFormat::Png)
        .unwrap();
    bytes
}

#[test]
fn hooks_of_the_process_do_not_change_what_is_decoded() {
    let picture = png(40, 20);
    let before_thumbnail = render_thumbnail(&picture).unwrap().data;
    let before_metadata = render_metadata(&picture).unwrap().data;
    let before_unknown = render_thumbnail(b"HOOKED bytes").unwrap_err();

    register_format_detection_hook("hooked".into(), &PNG_SIGNATURE, None);
    register_format_detection_hook("hooked".into(), b"HOOKED", None);
    assert!(register_decoding_hook("hooked".into(), Box::new(refuse)));
    assert!(image::load_from_memory(&picture).is_err());

    let decoded = decode_image(&picture).unwrap();
    assert_eq!((decoded.width(), decoded.height()), (40, 20));
    assert_eq!(render_thumbnail(&picture).unwrap().data, before_thumbnail);
    assert_eq!(render_metadata(&picture).unwrap().data, before_metadata);
    assert_eq!(preview_image(&picture).call.data, before_thumbnail);
    assert_eq!(describe_image(&picture).call.data, before_metadata);
    assert_eq!(before_unknown, RenderError::NotAnImage);
    assert_eq!(render_thumbnail(b"HOOKED bytes").unwrap_err(), RenderError::NotAnImage);
    assert!(decode_image(b"HOOKED bytes").is_none());
}
