use tag_manager::codec::{
    check_entries, check_entry, decode, encode, expected_pixel_len, parse_header, ColorKind,
    PngHeader, Raster,
};
use tag_manager::error::FormatError;

fn header(width: u32, height: u32, color: ColorKind, depth: u8) -> PngHeader {
    PngHeader { width, height, color, depth }
}

fn entry(k: &str, v: &str) -> (String, String) {
    (k.to_string(), v.to_string())
}

fn raster(h: PngHeader, pixels: Vec<u8>) -> Raster {
    Raster { header: h, pixels }
}

#[test]
fn round_trip_identity_rgba() {
    let h = header(3, 2, ColorKind::Rgba, 8);
    let pixels: Vec<u8> = (0u8..24).collect();
    let entries = vec![entry("Title", "Sunset"), entry("Author", "Ann"), entry("Title", "Dusk")];
    let bytes = encode(&raster(h, pixels.clone()), &entries).unwrap();
    let (r, e) = decode(&bytes).unwrap();
    assert_eq!(r.header, h);
    assert_eq!(r.pixels, pixels);
    assert_eq!(e, entries);
}

#[test]
fn round_trip_identity_gray16_and_one_bit() {
    let h = header(2, 2, ColorKind::Grayscale, 16);
    let pixels: Vec<u8> = vec![1, 2, 3, 4, 5, 6, 7, 8];
    let bytes = encode(&raster(h, pixels.clone()), &vec![]).unwrap();
    let (r, e) = decode(&bytes).unwrap();
    assert_eq!((r.header, r.pixels), (h, pixels));
    assert!(e.is_empty());

    let h1 = header(10, 3, ColorKind::Grayscale, 1);
    let px1: Vec<u8> = vec![0b1010_1010, 0b1100_0000, 0xff, 0x00, 0x0f, 0x40];
    let bytes1 = encode(&raster(h1, px1.clone()), &vec![entry("k", "v")]).unwrap();
    let (r1, e1) = decode(&bytes1).unwrap();
    assert_eq!((r1.header, r1.pixels), (h1, px1));
    assert_eq!(e1, vec![entry("k", "v")]);
}

#[test]
fn encoded_stream_opens_with_signature_and_header() {
    let h = header(2, 2, ColorKind::Rgb, 8);
    let bytes = encode(&raster(h, vec![9; 12]), &vec![]).unwrap();
    assert_eq!(&bytes[..8], &[137, 80, 78, 71, 13, 10, 26, 10]);
    assert_eq!(&bytes[12..16], b"IHDR");
    assert_eq!(parse_header(&bytes), Some(h));
}

#[test]
fn jpeg_bytes_are_not_a_png() {
    let jpeg: Vec<u8> = vec![0xFF, 0xD8, 0xFF, 0xE0, 0x00, 0x10, 0x4A, 0x46, 0x49, 0x46, 0x00, 0x01];
    assert_eq!(decode(&jpeg).unwrap_err(), FormatError::NotAPng);
    assert_eq!(decode(&[]).unwrap_err(), FormatError::NotAPng);
}

#[test]
fn missing_header_is_reported() {
    let mut b: Vec<u8> = vec![137, 80, 78, 71, 13, 10, 26, 10];
    assert_eq!(decode(&b).unwrap_err(), FormatError::MissingHeader);
    b.extend_from_slice(&[0, 0, 0, 4, b'I', b'E', b'N', b'D']);
    b.extend_from_slice(&[0; 30]);
    assert_eq!(decode(&b).unwrap_err(), FormatError::MissingHeader);
}

#[test]
fn corrupt_image_data_is_reported() {
    let h = header(4, 4, ColorKind::Rgb, 8);
    let bytes = encode(&raster(h, vec![7; 48]), &vec![]).unwrap();
    let truncated = &bytes[..40];
    assert_eq!(decode(truncated).unwrap_err(), FormatError::CorruptImageData);
    let mut damaged = bytes.clone();
    let n = damaged.len();
    damaged[n - 16] ^= 0xff;
    assert_eq!(decode(&damaged).unwrap_err(), FormatError::CorruptImageData);
}

#[test]
fn palette_and_bad_depths_are_unsupported() {
    let pal = raster(header(2, 2, ColorKind::Indexed, 8), vec![0; 4]);
    assert_eq!(encode(&pal, &vec![]).unwrap_err(), FormatError::UnsupportedColorType);
    let rgb4 = raster(header(2, 2, ColorKind::Rgb, 4), vec![0; 4]);
    assert_eq!(encode(&rgb4, &vec![]).unwrap_err(), FormatError::UnsupportedColorType);
}

#[test]
fn wrong_sample_count_is_corrupt() {
    let r = raster(header(2, 2, ColorKind::Rgb, 8), vec![0; 11]);
    assert_eq!(encode(&r, &vec![]).unwrap_err(), FormatError::CorruptImageData);
    let z = raster(header(0, 2, ColorKind::Rgb, 8), vec![]);
    assert_eq!(encode(&z, &vec![]).unwrap_err(), FormatError::CorruptImageData);
}

#[test]
fn key_length_limits() {
    let long = "k".repeat(80);
    let max = "k".repeat(79);
    assert_eq!(check_entry(&long, "v"), Some(FormatError::KeyTooLong));
    assert_eq!(check_entry(&max, "v"), None);
    let r = raster(header(1, 1, ColorKind::Grayscale, 8), vec![5]);
    assert_eq!(encode(&r, &vec![entry(&long, "v")]).unwrap_err(), FormatError::KeyTooLong);
    let bytes = encode(&r, &vec![entry(&max, "v")]).unwrap();
    assert_eq!(decode(&bytes).unwrap().1, vec![entry(&max, "v")]);
}

#[test]
fn non_latin1_text_is_invalid() {
    assert_eq!(check_entry("λ", "v"), Some(FormatError::InvalidEncoding));
    assert_eq!(check_entry("k", "5€"), Some(FormatError::InvalidEncoding));
    assert_eq!(check_entry("", "v"), Some(FormatError::InvalidEncoding));
    assert_eq!(check_entry("a\0b", "v"), Some(FormatError::InvalidEncoding));
    assert_eq!(check_entry("Café", "naïve"), None);
    let entries = vec![entry("ok", "fine"), entry("λ", "x"), entry(&"k".repeat(90), "y")];
    assert_eq!(check_entries(&entries), Some(FormatError::InvalidEncoding));
    let r = raster(header(1, 1, ColorKind::Grayscale, 8), vec![5]);
    let bytes = encode(&r, &vec![entry("Café", "naïve")]).unwrap();
    assert_eq!(decode(&bytes).unwrap().1, vec![entry("Café", "naïve")]);
}

#[test]
fn pixel_lengths() {
    assert_eq!(expected_pixel_len(header(2, 2, ColorKind::Rgb, 8)), 12);
    assert_eq!(expected_pixel_len(header(10, 3, ColorKind::Grayscale, 1)), 6);
    assert_eq!(expected_pixel_len(header(3, 1, ColorKind::Rgba, 16)), 24);
    assert_eq!(
        expected_pixel_len(header(u32::MAX, u32::MAX, ColorKind::Rgba, 16)),
        (u32::MAX as u128) * (u32::MAX as u128) * 8
    );
}

#[test]
fn header_with_bad_crc_is_missing_header() {
    let h = header(1, 1, ColorKind::Grayscale, 8);
    let mut bytes = encode(&raster(h, vec![200]), &vec![entry("k", "v")]).unwrap();
    assert_eq!(parse_header(&bytes), Some(h));
    bytes[29] = 0;
    bytes[30] = 0;
    bytes[31] = 0;
    bytes[32] = 0;
    assert_eq!(decode(&bytes).unwrap_err(), FormatError::MissingHeader);
    let mut flipped = encode(&raster(h, vec![200]), &vec![]).unwrap();
    flipped[32] ^= 0x01;
    assert_eq!(decode(&flipped).unwrap_err(), FormatError::MissingHeader);
}

#[test]
fn key_with_nul_is_refused_before_encoding() {
    let r = raster(header(1, 1, ColorKind::Grayscale, 8), vec![1]);
    assert_eq!(encode(&r, &vec![entry("a\0b", "v")]).unwrap_err(), FormatError::InvalidEncoding);
    let bytes = encode(&r, &vec![entry("k", "a\0b")]).unwrap();
    assert_eq!(decode(&bytes).unwrap().1, vec![entry("k", "a\0b")]);
}
