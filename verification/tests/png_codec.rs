use paint_type::png::{adler32_of, crc32_of, decode_png, encode_png};

fn pixels(w: u32, h: u32) -> Vec<u8> {
    (0..w * h * 4).map(|i| (i * 37 % 251) as u8).collect()
}

#[test]
fn crc32_matches_known_values() {
    assert_eq!(crc32_of(b"IEND"), 0xAE42_6082);
    assert_eq!(crc32_of(b"123456789"), 0xCBF4_3926);
    assert_eq!(crc32_of(b""), 0);
}

#[test]
fn adler32_matches_known_values() {
    assert_eq!(adler32_of(b"Wikipedia"), 0x11E6_0398);
    assert_eq!(adler32_of(b""), 1);
}

#[test]
fn encode_writes_signature_header_and_end() {
    let png = encode_png(&[255, 0, 0, 255], 1, 1).unwrap();
    assert_eq!(&png[..8], &[0x89, b'P', b'N', b'G', 0x0D, 0x0A, 0x1A, 0x0A]);
    assert_eq!(&png[8..16], &[0, 0, 0, 13, b'I', b'H', b'D', b'R']);
    assert_eq!(&png[16..29], &[0, 0, 0, 1, 0, 0, 0, 1, 8, 6, 0, 0, 0]);
    assert_eq!(&png[png.len() - 12..], &[0, 0, 0, 0, b'I', b'E', b'N', b'D', 0xAE, 0x42, 0x60, 0x82]);
    // zlib header, one final stored block of 5 bytes (filter byte + pixel)
    assert_eq!(&png[41..48], &[0x78, 0x01, 1, 5, 0, 0xFA, 0xFF]);
}

#[test]
fn encode_rejects_wrong_buffer_size() {
    assert_eq!(encode_png(&[1, 2, 3], 1, 1).unwrap_err(), "pixel buffer holds 3 bytes, expected 4");
}

#[test]
fn round_trip_small_and_multi_block() {
    for (w, h) in [(1u32, 1u32), (3, 2), (0, 0), (5, 0), (200, 100)] {
        let px = pixels(w, h);
        let png = encode_png(&px, w, h).unwrap();
        assert_eq!(decode_png(&png).unwrap(), (px, w, h), "{w}x{h}");
    }
}

#[test]
fn decode_refuses_other_files() {
    assert_eq!(decode_png(b"hello").unwrap_err(), "not a PNG file");
    let mut png = encode_png(&pixels(2, 2), 2, 2).unwrap();
    png[25] = 2;
    assert_eq!(decode_png(&png).unwrap_err(), "only 8-bit RGBA, non-interlaced PNGs are read");
    let mut png = encode_png(&pixels(2, 2), 2, 2).unwrap();
    png[43] = 0b0000_0011;
    assert_eq!(decode_png(&png).unwrap_err(), "only stored deflate blocks are read");
    let mut png = encode_png(&pixels(2, 2), 2, 2).unwrap();
    png[48] = 1;
    assert_eq!(decode_png(&png).unwrap_err(), "only unfiltered rows are read");
    let mut png = encode_png(&pixels(2, 2), 2, 2).unwrap();
    png[23] = 3;
    assert_eq!(decode_png(&png).unwrap_err(), "image data does not match its size");
    let mut png = encode_png(&pixels(2, 2), 2, 2).unwrap();
    png.push(0);
    assert_eq!(decode_png(&png).unwrap_err(), "unsupported chunk layout");
}
