use preview_plugins::boundary::{
    buffer_fits, decode_string, deliver, emit_result, read_buffer, view_buffer, ResultPayload,
    STATUS_DELIVERED,
};
use preview_plugins::text::{decode_bytes, push_decimal, push_text, trim_dots};

fn memory_with(at: usize, bytes: &[u8], size: usize) -> Vec<u8> {
    let mut memory = vec![0xAAu8; size];
    memory[at..at + bytes.len()].copy_from_slice(bytes);
    memory
}

fn until_zero(bytes: &[u8]) -> &[u8] {
    let end = bytes.iter().position(|b| *b == 0).unwrap_or(bytes.len());
    &bytes[..end]
}

#[test]
fn null_address_gives_the_empty_view() {
    let view = view_buffer(0, 12);
    assert_eq!(view.address(), 0);
    assert_eq!(view.length(), 0);
    assert!(view.is_empty());
}

#[test]
fn zero_length_gives_the_empty_view() {
    let view = view_buffer(64, 0);
    assert_eq!(view.address(), 0);
    assert_eq!(view.length(), 0);
    assert!(view.is_empty());
}

#[test]
fn negative_length_gives_the_empty_view() {
    for length in [-1, -300, i32::MIN] {
        let view = view_buffer(64, length);
        assert_eq!(view.address(), 0);
        assert_eq!(view.length(), 0);
        assert!(view.is_empty());
    }
}

#[test]
fn live_buffer_is_kept_as_given() {
    let view = view_buffer(64, 3);
    assert_eq!(view.address(), 64);
    assert_eq!(view.length(), 3);
    assert!(!view.is_empty());
    let high = view_buffer(-16, i32::MAX);
    assert_eq!(high.address(), -16);
    assert_eq!(high.length(), i32::MAX);
}

#[test]
fn empty_view_reads_nothing_from_any_memory() {
    let memory = vec![1u8, 2, 3];
    assert!(read_buffer(&memory, view_buffer(0, 3)).is_empty());
    assert!(read_buffer(&memory, view_buffer(2, -1)).is_empty());
    assert!(read_buffer(&[], view_buffer(0, 0)).is_empty());
    assert!(read_buffer(&[], view_buffer(900, 0)).is_empty());
}

#[test]
fn live_view_reads_exactly_its_bytes() {
    let memory = memory_with(5, b"abc", 16);
    assert_eq!(read_buffer(&memory, view_buffer(5, 3)), b"abc");
    assert_eq!(read_buffer(&memory, view_buffer(6, 2)), b"bc");
    assert_eq!(read_buffer(&memory, view_buffer(13, 3)), &[0xAA, 0xAA, 0xAA]);
}

#[test]
fn buffer_fits_tells_what_lies_inside() {
    let memory = vec![0u8; 16];
    assert!(buffer_fits(&memory, 1, 15));
    assert!(buffer_fits(&memory, 15, 1));
    assert!(!buffer_fits(&memory, 15, 2));
    assert!(!buffer_fits(&memory, 16, 1));
    assert!(!buffer_fits(&memory, 1, i32::MAX));
    assert!(!buffer_fits(&memory, -1, 1));
    assert!(!buffer_fits(&memory, i32::MIN, 1));
    assert!(buffer_fits(&memory, 0, i32::MAX));
    assert!(buffer_fits(&memory, 4000, 0));
    assert!(buffer_fits(&memory, -1, -1));
    assert!(buffer_fits(&[], 0, 0));
}

#[test]
fn no_data_decodes_to_the_empty_string() {
    let memory = memory_with(4, b"text", 16);
    assert_eq!(decode_string(&memory, 0, 4), "");
    assert_eq!(decode_string(&memory, 4, 0), "");
    assert_eq!(decode_string(&memory, 4, -4), "");
    assert_eq!(decode_string(&[], 0, 0), "");
    assert_eq!(decode_string(&[], 77, i32::MIN), "");
}

#[test]
fn valid_utf8_round_trips_exactly() {
    let text = "fn main() { println!(\"h\u{e9}llo \u{2713} \u{1F600}\"); }\n";
    let memory = memory_with(3, text.as_bytes(), 80);
    let decoded = decode_string(&memory, 3, text.len() as i32);
    assert_eq!(decoded, text);
    assert_eq!(decoded.as_bytes(), text.as_bytes());
    assert_eq!(decode_bytes(text.as_bytes()), text);
    assert_eq!(decode_bytes(b""), "");
}

#[test]
fn invalid_utf8_is_replaced_the_same_way_every_time() {
    let bytes = [b'a', 0xFF, b'b', 0xE2, 0x82, b'c', 0xC0, 0x80];
    let expected = "a\u{FFFD}b\u{FFFD}c\u{FFFD}\u{FFFD}";
    assert_eq!(decode_bytes(&bytes), expected);
    assert_eq!(decode_bytes(&bytes), decode_bytes(&bytes));
    let memory = memory_with(1, &bytes, 12);
    assert_eq!(decode_string(&memory, 1, bytes.len() as i32), expected);
}

#[test]
fn any_byte_decodes_without_failing() {
    for byte in 0..=255u8 {
        let text = decode_bytes(&[byte, byte]);
        assert!(!text.is_empty());
    }
}

#[test]
fn emit_result_hands_over_payload_and_mime_type() {
    let call = emit_result(b"<b>hi</b>".to_vec(), "text/html");
    assert_eq!(call.data, b"<b>hi</b>");
    assert_eq!(call.data_len, 9);
    assert_eq!(call.data_len as usize, call.data.len());
    assert_eq!(call.mime, b"text/html\0");
    assert_eq!(until_zero(&call.mime), b"text/html");
}

#[test]
fn emit_result_with_empty_payload() {
    let call = emit_result(Vec::new(), "application/octet-stream");
    assert!(call.data.is_empty());
    assert_eq!(call.data_len, 0);
    assert_eq!(until_zero(&call.mime), b"application/octet-stream");
    assert_eq!(call.mime.len(), "application/octet-stream".len() + 1);
}

#[test]
fn emit_result_keeps_every_byte_value() {
    let payload: Vec<u8> = (0..=255u8).collect();
    let call = emit_result(payload.clone(), "image/jpeg");
    assert_eq!(call.data, payload);
    assert_eq!(call.data_len, 256);
    assert_eq!(until_zero(&call.mime), b"image/jpeg");
}

#[test]
fn emit_result_encodes_the_mime_type_as_utf8() {
    let call = emit_result(vec![1], "text/pl\u{e4}in");
    assert_eq!(call.mime, "text/pl\u{e4}in\0".as_bytes());
    let empty = emit_result(vec![1], "");
    assert_eq!(empty.mime, vec![0u8]);
}

#[test]
fn deliver_reports_status_zero_whatever_the_payload() {
    assert_eq!(STATUS_DELIVERED, 0);
    let failed = deliver(ResultPayload::empty("application/octet-stream"));
    assert_eq!(failed.status, 0);
    assert!(failed.call.data.is_empty());
    assert_eq!(failed.call.data_len, 0);
    assert_eq!(until_zero(&failed.call.mime), b"application/octet-stream");

    let page = deliver(ResultPayload { data: b"{}".to_vec(), mime_type: "application/json".to_string() });
    assert_eq!(page.status, 0);
    assert_eq!(page.call.data, b"{}");
    assert_eq!(page.call.data_len, 2);
    assert_eq!(until_zero(&page.call.mime), b"application/json");
}

#[test]
fn empty_payload_has_no_bytes_and_the_given_type() {
    let empty = ResultPayload::empty("application/json");
    assert!(empty.data.is_empty());
    assert_eq!(empty.mime_type, "application/json");
    let other = ResultPayload::empty("application/octet-stream");
    assert!(other.data.is_empty());
    assert_eq!(other.mime_type, "application/octet-stream");
}

#[test]
fn push_decimal_writes_plain_digits() {
    for (value, digits) in [
        (0u32, "0"),
        (7, "7"),
        (10, "10"),
        (300, "300"),
        (1205, "1205"),
        (65535, "65535"),
        (u32::MAX, "4294967295"),
    ] {
        let mut out = b"w=".to_vec();
        push_decimal(&mut out, value);
        assert_eq!(out, format!("w={}", digits).into_bytes());
    }
}

#[test]
fn trim_dots_strips_both_ends_only() {
    for (text, rest) in [
        ("", ""),
        (".", ""),
        ("....", ""),
        ("rs", "rs"),
        (".rs", "rs"),
        ("rs.", "rs"),
        ("..tar.gz...", "tar.gz"),
        (". .", " "),
        ("a..b", "a..b"),
        (".\u{e9}t\u{e9}.", "\u{e9}t\u{e9}"),
        ("\u{2026}.x.\u{2026}", "\u{2026}.x.\u{2026}"),
        ("..\u{1F600}", "\u{1F600}"),
        ("\u{1F600}..", "\u{1F600}"),
    ] {
        assert_eq!(trim_dots(text), rest);
        assert_eq!(trim_dots(text), text.trim_matches('.'));
    }
}

#[test]
fn push_text_appends_the_utf8_bytes() {
    let mut out = b"a".to_vec();
    push_text(&mut out, "");
    assert_eq!(out, b"a");
    push_text(&mut out, "b\u{e9}\u{1F600}");
    assert_eq!(out, "ab\u{e9}\u{1F600}".as_bytes());
}
