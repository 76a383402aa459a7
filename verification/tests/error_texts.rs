use paint_type::groove::ManifestError;
use paint_type::ptype::DecodeError;

#[test]
fn decode_error_messages() {
    assert_eq!(DecodeError::BadMagic.to_display_string(), "bad magic: not a .ptype container");
    assert_eq!(DecodeError::UnsupportedVersion(254).to_display_string(), "unsupported .ptype version 254");
    assert_eq!(DecodeError::UnsupportedFlags(0x1a).to_display_string(), "unsupported .ptype flags 0x001a");
    assert_eq!(
        DecodeError::TileGeometryMismatch { got: (32, 4), expected: (64, 4) }.to_display_string(),
        "tile geometry mismatch: file has 32x4c, this build expects 64x4c"
    );
    assert_eq!(
        DecodeError::UnexpectedEof { context: "magic" }.to_display_string(),
        "unexpected end of input while reading magic"
    );
    assert_eq!(DecodeError::TrailingBytes { extra: 3 }.to_display_string(), "3 trailing byte(s) after canvas");
}

#[test]
fn manifest_error_messages() {
    assert_eq!(
        ManifestError::BadServiceId("Paint_Type".to_string()).to_display_string(),
        "service_id \"Paint_Type\" violates ^[a-z][a-z0-9_-]*$"
    );
    assert_eq!(
        ManifestError::WrongGrooveVersion("2".to_string()).to_display_string(),
        "groove_version must be \"1\", got \"2\""
    );
    assert_eq!(ManifestError::NoCapabilities.to_display_string(), "manifest advertises no capabilities");
}
