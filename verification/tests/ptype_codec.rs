use paint_type::ptype::{
    decode, encode, magic, BlendMode, Canvas, DecodeError, Layer, Tile, TileKey, TILE_SCALARS,
};

fn patterned_tile(pattern: &[u16]) -> Tile {
    let mut t = Tile::zeroed();
    for (i, p) in t.pixels.iter_mut().enumerate() {
        *p = pattern[i % pattern.len()];
    }
    t
}

fn sample_canvas() -> Canvas {
    let mut c = Canvas::new(256, 128);
    c.background = [0.1f32.to_bits(), 0.2f32.to_bits(), 0.3f32.to_bits(), 1.0f32.to_bits()];

    let mut base = Layer::new("background".to_string());
    base.set_tile(TileKey { tx: 0, ty: 0 }, patterned_tile(&[0x3C00, 0x0000]));
    base.set_tile(TileKey { tx: 3, ty: 1 }, patterned_tile(&[0xFFFF, 0x1234, 0x00FF]));

    let mut over = Layer::new("ink ✏".to_string());
    over.visible = false;
    over.opacity = 0.42f64.to_bits();
    over.blend = BlendMode::Multiply;
    over.set_tile(TileKey { tx: 2, ty: 2 }, patterned_tile(&[0x8000, 0x7C00]));

    c.layers.push(base);
    c.layers.push(over);
    c
}

const HEADER_LEN: usize = 8 + 2 + 2 + 4 + 4 + 4 + 16 + 4 + 4;

#[test]
fn roundtrip_empty_canvas() {
    let c = Canvas::new(64, 64);
    let bytes = encode(&c);
    assert_eq!(decode(&bytes).unwrap(), c);
}

#[test]
fn roundtrip_multi_layer_multi_tile() {
    let c = sample_canvas();
    let decoded = decode(&encode(&c)).unwrap();
    assert_eq!(decoded, c);
}

#[test]
fn roundtrip_preserves_half_float_edge_patterns() {
    let edges = [
        0x0000, 0x8000, 0x3C00, 0x7BFF, 0x0400, 0x0001, 0x7C00, 0xFC00, 0x7E00, 0xFDFF, 0xFFFF,
    ];
    let mut c = Canvas::new(64, 64);
    let mut layer = Layer::new("edges".to_string());
    layer.set_tile(TileKey { tx: 7, ty: 9 }, patterned_tile(&edges));
    c.layers.push(layer);

    let decoded = decode(&encode(&c)).unwrap();
    let original = c.layers[0].get_tile(TileKey { tx: 7, ty: 9 }).unwrap();
    let got = decoded.layers[0].get_tile(TileKey { tx: 7, ty: 9 }).unwrap();
    assert_eq!(got.pixels[..], original.pixels[..]);
}

#[test]
fn byte_stability_under_reencode() {
    let c = sample_canvas();
    let once = encode(&c);
    let twice = encode(&decode(&once).unwrap());
    assert_eq!(once, twice);
}

#[test]
fn golden_header_prefix() {
    let c = Canvas::new(0x0102_0304, 0x0506_0708);
    let bytes = encode(&c);
    let expected: &[u8] = &[
        0x89, b'P', b'T', b'Y', b'P', b'E', 0x0D, 0x0A, 0x01, 0x00, 0x00, 0x00, 0x00, 0x00, 0x00,
        0x00, 0x04, 0x03, 0x02, 0x01, 0x08, 0x07, 0x06, 0x05,
    ];
    assert_eq!(&bytes[..expected.len()], expected);
}

#[test]
fn reject_bad_magic() {
    let mut bytes = encode(&Canvas::new(8, 8));
    bytes[0] ^= 0xFF;
    assert_eq!(decode(&bytes), Err(DecodeError::BadMagic));
}

#[test]
fn reject_unsupported_version() {
    let mut bytes = encode(&Canvas::new(8, 8));
    bytes[8] = 0xFE;
    assert!(matches!(decode(&bytes), Err(DecodeError::UnsupportedVersion(_))));
}

#[test]
fn reject_truncation_at_all_lengths() {
    let mut c = Canvas::new(8, 8);
    let mut layer = Layer::new("t".to_string());
    layer.set_tile(TileKey { tx: 0, ty: 0 }, Tile::zeroed());
    c.layers.push(layer);
    let bytes = encode(&c);
    for len in 0..bytes.len() {
        match decode(&bytes[..len]) {
            Err(_) => {}
            Ok(_) => panic!("a {len}-byte truncated prefix decoded as a full canvas"),
        }
    }
}

#[test]
fn reject_trailing_bytes() {
    let mut bytes = encode(&Canvas::new(8, 8));
    bytes.push(0x00);
    assert!(matches!(decode(&bytes), Err(DecodeError::TrailingBytes { extra: 1 })));
}

#[test]
fn reject_unknown_blend_mode() {
    let mut c = Canvas::new(8, 8);
    c.layers.push(Layer::new("x".to_string()));
    let mut bytes = encode(&c);
    let header = magic().len() + 2 + 2 + 4 + 4 + 4 + 16 + 4 + 4;
    let first_layer = header + 4;
    let blend_off = first_layer + 4 + 1 + 1 + 8;
    bytes[blend_off] = 0x09;
    assert_eq!(decode(&bytes), Err(DecodeError::UnknownBlendMode(9)));
}

#[test]
fn blend_modes_roundtrip() {
    for (mode, disc) in [(BlendMode::Normal, 0u32), (BlendMode::Multiply, 1), (BlendMode::Screen, 2)] {
        assert_eq!(mode.to_u32(), disc);
        assert_eq!(BlendMode::from_u32(disc).unwrap(), mode);
    }
    assert_eq!(BlendMode::from_u32(3), Err(DecodeError::UnknownBlendMode(3)));
}

#[test]
fn reject_oversized_layer_count_without_oom() {
    let mut bytes = encode(&Canvas::new(8, 8));
    let layer_count_off = magic().len() + 2 + 2 + 4 + 4 + 4 + 16 + 4 + 4;
    bytes[layer_count_off..layer_count_off + 4].copy_from_slice(&u32::MAX.to_le_bytes());
    assert!(matches!(decode(&bytes), Err(DecodeError::UnexpectedEof { .. })));
}

#[test]
fn empty_canvas_encodes_to_header_and_zero_layer_count() {
    let bytes = encode(&Canvas::new(8, 8));
    assert_eq!(bytes.len(), HEADER_LEN + 4);
    assert_eq!(&bytes[HEADER_LEN..], &[0, 0, 0, 0]);
    assert_eq!(&bytes[HEADER_LEN - 8..HEADER_LEN], &[64, 0, 0, 0, 4, 0, 0, 0]);
}

#[test]
fn reject_flags_format_and_geometry() {
    let good = encode(&Canvas::new(8, 8));
    let mut b = good.clone();
    b[10] = 1;
    assert_eq!(decode(&b), Err(DecodeError::UnsupportedFlags(1)));
    let mut b = good.clone();
    b[12] = 2;
    assert_eq!(decode(&b), Err(DecodeError::UnsupportedFormat(2)));
    let mut b = good.clone();
    b[HEADER_LEN - 8] = 32;
    assert_eq!(
        decode(&b),
        Err(DecodeError::TileGeometryMismatch { got: (32, 4), expected: (64, 4) })
    );
    assert!(matches!(decode(&[]), Err(DecodeError::UnexpectedEof { .. })));
}

#[test]
fn set_tile_keeps_keys_sorted_and_replaces() {
    let mut l = Layer::new("l".to_string());
    l.set_tile(TileKey { tx: 5, ty: 0 }, patterned_tile(&[5]));
    l.set_tile(TileKey { tx: 1, ty: 9 }, patterned_tile(&[1]));
    l.set_tile(TileKey { tx: 5, ty: 0 }, patterned_tile(&[7]));
    let keys: Vec<TileKey> = l.tiles.iter().map(|(k, _)| *k).collect();
    assert_eq!(keys, vec![TileKey { tx: 1, ty: 9 }, TileKey { tx: 5, ty: 0 }]);
    assert_eq!(l.get_tile(TileKey { tx: 5, ty: 0 }).unwrap().pixels[0], 7);
    assert!(l.get_tile(TileKey { tx: 0, ty: 0 }).is_none());
    assert_eq!(Tile::zeroed().pixels.len(), TILE_SCALARS);
}
