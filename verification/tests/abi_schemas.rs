use paint_type::tools::abi::{generate_layer_twasm, generate_tile_twasm};

#[test]
fn tile_schema_pins_magic_and_sizes() {
    let s = generate_tile_twasm(64, 4, 0x5054_4C45);
    assert!(s.contains("where magic == 0x50544C45;"));
    assert!(s.contains("pixels: @RGBA16F[4096];  // 4096 pixels × 8 B = 32768 B"));
    assert!(s.contains("idx_x and idx_y are bounded to [0, 64)"));
    assert!(s.contains("let linear: i32 = idx_y * 64 + idx_x;"));
    assert!(s.starts_with("// SPDX-License-Identifier: PMPL-1.0-or-later\n"));
}

#[test]
fn tile_schema_magic_is_upper_hex_zero_padded() {
    let s = generate_tile_twasm(2, 1, 0xab);
    assert!(s.contains("magic = 0x000000AB,"));
    assert!(s.contains("@RGBA16F[4];  // 4 pixels × 2 B = 8 B"));
}

#[test]
fn layer_schema_pins_limits() {
    let s = generate_layer_twasm(256, 256, 0x504C_5354);
    assert!(s.contains("PT_LAYER_NAME_MAX = 256, PT_LAYER_MAX_PER_STACK = 256."));
    assert!(s.contains("PT_LAYER_STACK_MAGIC = 0x504C5354 (\"PLST\")"));
    assert!(s.contains("if count >= 256 {"));
    assert!(s.contains("layers:      @Layer[256];"));
}

#[test]
fn layer_schema_uses_each_limit_in_its_place() {
    let s = generate_layer_twasm(8, 32, 1);
    assert!(s.contains("PT_LAYER_NAME_MAX = 32, PT_LAYER_MAX_PER_STACK = 8."));
    assert!(s.contains("bytes: u8[32];"));
    assert!(s.contains("if name_len > 32 {"));
    assert!(s.contains("magic = 0x00000001,"));
}
