//! The typed-wasm schemas of the native tile and layer-stack interfaces,
//! rendered from their layout constants.

use vstd::prelude::*;
use crate::text::{decimal, u64_to_decimal};

verus! {

/// The upper-case hexadecimal digit for `d` (`d < 16`).
pub open spec fn hex_upper_digit(d: nat) -> char {
    if d < 10 {
        crate::text::digit_char(d)
    } else if d == 10 {
        'A'
    } else if d == 11 {
        'B'
    } else if d == 12 {
        'C'
    } else if d == 13 {
        'D'
    } else if d == 14 {
        'E'
    } else {
        'F'
    }
}

/// `x` as `0x` and eight upper-case hexadecimal digits.
pub open spec fn hex8_upper(x: u32) -> Seq<char> {
    seq![
        '0',
        'x',
        hex_upper_digit((x as nat / 0x1000_0000) % 16),
        hex_upper_digit((x as nat / 0x100_0000) % 16),
        hex_upper_digit((x as nat / 0x10_0000) % 16),
        hex_upper_digit((x as nat / 0x1_0000) % 16),
        hex_upper_digit((x as nat / 0x1000) % 16),
        hex_upper_digit((x as nat / 0x100) % 16),
        hex_upper_digit((x as nat / 0x10) % 16),
        hex_upper_digit(x as nat % 16),
    ]
}

fn hex_upper_digit_exec(d: u32) -> (c: char)
    requires
        d < 16,
    ensures
        c == hex_upper_digit(d as nat),
{
    if d < 10 {
        crate::text::digit(d as u64)
    } else if d == 10 {
        'A'
    } else if d == 11 {
        'B'
    } else if d == 12 {
        'C'
    } else if d == 13 {
        'D'
    } else if d == 14 {
        'E'
    } else {
        'F'
    }
}

fn hex8_upper_exec(x: u32) -> (s: String)
    ensures
        s@ == hex8_upper(x),
{
    let mut s = String::from_str("0x");
    s.push(hex_upper_digit_exec((x / 0x1000_0000) % 16));
    s.push(hex_upper_digit_exec((x / 0x100_0000) % 16));
    s.push(hex_upper_digit_exec((x / 0x10_0000) % 16));
    s.push(hex_upper_digit_exec((x / 0x1_0000) % 16));
    s.push(hex_upper_digit_exec((x / 0x1000) % 16));
    s.push(hex_upper_digit_exec((x / 0x100) % 16));
    s.push(hex_upper_digit_exec((x / 0x10) % 16));
    s.push(hex_upper_digit_exec(x % 16));
    proof {
        reveal_strlit("0x");
    }
    assert(s@ =~= hex8_upper(x));
    s
}

/// The typed-wasm schema of a tile with `tile_size`-pixel edges,
/// `channels` half-float channels per pixel and header magic `magic`.
pub open spec fn tile_twasm_text(tile_size: u32, channels: u32, magic: u32) -> Seq<char> {
    "// SPDX-License-Identifier: PMPL-1.0-or-later\n// Copyright (c) 2026 Joshua Jewell (JoshuaJewell)\n//\n// paint-type-tile.twasm — typed-wasm schema for paint-type's RGBA16F tile.\n//\n// STATUS: Verified bridge.\n// Source for the AffineScript → typed-wasm bridge layer.\n// This is the actual source the bridge generator emits, plus a corpus entry\n// for the round-trip soundness property (typed-wasm#130).\n//\n// Surface mirrored: pt_tile_alloc / pt_tile_free / pt_tile_fill /\n// pt_tile_read_pixel / pt_tile_write_pixel / pt_tile_blit / pt_version\n// (see src/interface/ffi/src/main.zig in this repo).\n\n// --- Region Declarations (the \"schema\") ---\n\n// One pixel: four IEEE 754 binary16 channels in premultiplied alpha.\n// 8 bytes total, naturally aligned.\nregion RGBA16F {\n    r: u16;   // f16 bit pattern; verifier treats as opaque u16\n    g: u16;\n    b: u16;\n    a: u16;\n\n    where 0 <= r;     // u16 range is its own bounds; placeholder for\n    where 0 <= g;     // future f16-classifier constraint (TP-3 carrier).\n    where 0 <= b;\n    where 0 <= a;\n\n    align 2;\n}\n\n// Header: 16 bytes, magic + version + grid coordinates + pad.\nregion TileHeader {\n    magic:   u32;     // "@
        + hex8_upper(magic)
        + " \"PTLE\" — written by pt_tile_alloc\n    version: u32;     // schema version (bumped on layout change)\n    grid_x:  u32;     // tile coordinate in the larger image plane\n    grid_y:  u32;\n\n    where magic == "@
        + hex8_upper(magic)
        + ";   // L5: structural pin\n\n    align 4;\n}\n\n// A full tile: 32 KiB pixel buffer + 16 B header = 32784 B.\n// Mirror of struct `Tile` in src/interface/ffi/src/main.zig + the\n// constants TILE_SIZE / TILE_CHANNELS / TILE_PIXEL_BYTES in\n// src/paint_core/src/lib.rs.\nregion Tile {\n    header: @TileHeader;        // embedded\n    pixels: @RGBA16F["@
        + decimal((tile_size * tile_size) as nat)
        + "];  // "@
        + decimal((tile_size * tile_size) as nat)
        + " pixels × "@
        + decimal((channels * 2) as nat)
        + " B = "@
        + decimal((tile_size * tile_size * (channels * 2)) as nat)
        + " B\n\n    align 8;\n}\n\n// --- Memory Declaration ---\n\nmemory tile_memory {\n    initial: 1;        // 1 page = 64 KiB — fits one tile + headroom\n    maximum: 1024;     // 64 MiB ceiling — caller-decided in v0.3.0\n\n    place Tile at 0;\n}\n\n// --- Functions ---\n\n// Level 10: linear allocation. Returns an OWNING handle that must be\n// freed exactly once. Mirrors `pt_tile_alloc(x, y) -> u64` where 0\n// signals allocation failure.\nfn alloc_tile(grid_x: u32, grid_y: u32) -> own region<Tile>\n    effects { Alloc }\n{\n    region.alloc Tile {\n        header = TileHeader {\n            magic = "@
        + hex8_upper(magic)
        + ",\n            version = 1,\n            grid_x = grid_x,\n            grid_y = grid_y\n        }\n        // pixels left zero-initialised; caller calls fill_tile next.\n    } -> tile;\n    return tile;\n}\n\n// Level 10: consumes the linear handle. Mirrors `pt_tile_free`.\nfn free_tile(tile: own region<Tile>)\n    effects { Free }\n{\n    region.free $tile;\n}\n\n// Level 8: write-effect on Tile. Mirrors `pt_tile_fill`.\n// All four channels write under exclusive borrow — guaranteed by &mut.\nfn fill_tile(\n    tile: &mut region<Tile>,\n    r: u16, g: u16, b: u16, a: u16\n)\n    effects { WriteRegion(Tile) }\n{\n    region.scan $tile.pixels -> |px| {\n        region.set $px .r, r;\n        region.set $px .g, g;\n        region.set $px .b, b;\n        region.set $px .a, a;\n    }\n}\n\n// Level 5: bounds-proven pixel read. Mirrors `pt_tile_read_pixel`.\n// idx_x and idx_y are bounded to [0, "@
        + decimal(tile_size as nat)
        + ") by the array type; the\n// verifier eliminates the runtime bounds check.\nfn read_pixel(\n    tile: &region<Tile>,\n    idx_x: i32, idx_y: i32\n) -> @RGBA16F\n    effects { ReadRegion(Tile) }\n{\n    let linear: i32 = idx_y * "@
        + decimal(tile_size as nat)
        + " + idx_x;\n    region.get $tile.pixels[linear] -> px;\n    return px;\n}\n\n// Level 8: write at one pixel. Mirrors `pt_tile_write_pixel`.\nfn write_pixel(\n    tile: &mut region<Tile>,\n    idx_x: i32, idx_y: i32,\n    r: u16, g: u16, b: u16, a: u16\n)\n    effects { WriteRegion(Tile) }\n{\n    let linear: i32 = idx_y * "@
        + decimal(tile_size as nat)
        + " + idx_x;\n    region.set $tile.pixels[linear] .r, r;\n    region.set $tile.pixels[linear] .g, g;\n    region.set $tile.pixels[linear] .b, b;\n    region.set $tile.pixels[linear] .a, a;\n}\n\n// Level 7: paired-region aliasing safety. Mirrors `pt_tile_blit(dst, src)`\n// where dst and src are distinct tiles. The `&mut`/`&` split is what\n// makes the no-self-blit guarantee statically checkable.\nfn blit_tile(\n    dst: &mut region<Tile>,\n    src: &region<Tile>\n)\n    effects { ReadRegion(Tile), WriteRegion(Tile) }\n{\n    region.scan $src.pixels indexed -> |i, src_px| {\n        region.get $src_px .r -> sr;\n        region.get $src_px .g -> sg;\n        region.get $src_px .b -> sb;\n        region.get $src_px .a -> sa;\n        region.set $dst.pixels[i] .r, sr;\n        region.set $dst.pixels[i] .g, sg;\n        region.set $dst.pixels[i] .b, sb;\n        region.set $dst.pixels[i] .a, sa;\n    }\n}\n"@
}

/// The typed-wasm schema of a tile.
pub fn generate_tile_twasm(tile_size: u32, channels: u32, magic: u32) -> (s: String)
    requires
        channels * 2 <= u32::MAX,
        tile_size * tile_size <= u32::MAX,
        tile_size * tile_size * (channels * 2) <= u32::MAX,
    ensures
        s@ == tile_twasm_text(tile_size, channels, magic),
{
    let bytes_per_pixel: u32 = channels * 2;
    let total_pixels: u32 = tile_size * tile_size;
    let pixel_bytes: u32 = total_pixels * bytes_per_pixel;
    let magic_text = hex8_upper_exec(magic);
    let tile_size_text = u64_to_decimal(tile_size as u64);
    let total_text = u64_to_decimal(total_pixels as u64);
    let bpp_text = u64_to_decimal(bytes_per_pixel as u64);
    let bytes_text = u64_to_decimal(pixel_bytes as u64);
    let mut s = String::from_str("// SPDX-License-Identifier: PMPL-1.0-or-later\n// Copyright (c) 2026 Joshua Jewell (JoshuaJewell)\n//\n// paint-type-tile.twasm — typed-wasm schema for paint-type's RGBA16F tile.\n//\n// STATUS: Verified bridge.\n// Source for the AffineScript → typed-wasm bridge layer.\n// This is the actual source the bridge generator emits, plus a corpus entry\n// for the round-trip soundness property (typed-wasm#130).\n//\n// Surface mirrored: pt_tile_alloc / pt_tile_free / pt_tile_fill /\n// pt_tile_read_pixel / pt_tile_write_pixel / pt_tile_blit / pt_version\n// (see src/interface/ffi/src/main.zig in this repo).\n\n// --- Region Declarations (the \"schema\") ---\n\n// One pixel: four IEEE 754 binary16 channels in premultiplied alpha.\n// 8 bytes total, naturally aligned.\nregion RGBA16F {\n    r: u16;   // f16 bit pattern; verifier treats as opaque u16\n    g: u16;\n    b: u16;\n    a: u16;\n\n    where 0 <= r;     // u16 range is its own bounds; placeholder for\n    where 0 <= g;     // future f16-classifier constraint (TP-3 carrier).\n    where 0 <= b;\n    where 0 <= a;\n\n    align 2;\n}\n\n// Header: 16 bytes, magic + version + grid coordinates + pad.\nregion TileHeader {\n    magic:   u32;     // ");
    s.append(magic_text.as_str());
    s.append(" \"PTLE\" — written by pt_tile_alloc\n    version: u32;     // schema version (bumped on layout change)\n    grid_x:  u32;     // tile coordinate in the larger image plane\n    grid_y:  u32;\n\n    where magic == ");
    s.append(magic_text.as_str());
    s.append(";   // L5: structural pin\n\n    align 4;\n}\n\n// A full tile: 32 KiB pixel buffer + 16 B header = 32784 B.\n// Mirror of struct `Tile` in src/interface/ffi/src/main.zig + the\n// constants TILE_SIZE / TILE_CHANNELS / TILE_PIXEL_BYTES in\n// src/paint_core/src/lib.rs.\nregion Tile {\n    header: @TileHeader;        // embedded\n    pixels: @RGBA16F[");
    s.append(total_text.as_str());
    s.append("];  // ");
    s.append(total_text.as_str());
    s.append(" pixels × ");
    s.append(bpp_text.as_str());
    s.append(" B = ");
    s.append(bytes_text.as_str());
    s.append(" B\n\n    align 8;\n}\n\n// --- Memory Declaration ---\n\nmemory tile_memory {\n    initial: 1;        // 1 page = 64 KiB — fits one tile + headroom\n    maximum: 1024;     // 64 MiB ceiling — caller-decided in v0.3.0\n\n    place Tile at 0;\n}\n\n// --- Functions ---\n\n// Level 10: linear allocation. Returns an OWNING handle that must be\n// freed exactly once. Mirrors `pt_tile_alloc(x, y) -> u64` where 0\n// signals allocation failure.\nfn alloc_tile(grid_x: u32, grid_y: u32) -> own region<Tile>\n    effects { Alloc }\n{\n    region.alloc Tile {\n        header = TileHeader {\n            magic = ");
    s.append(magic_text.as_str());
    s.append(",\n            version = 1,\n            grid_x = grid_x,\n            grid_y = grid_y\n        }\n        // pixels left zero-initialised; caller calls fill_tile next.\n    } -> tile;\n    return tile;\n}\n\n// Level 10: consumes the linear handle. Mirrors `pt_tile_free`.\nfn free_tile(tile: own region<Tile>)\n    effects { Free }\n{\n    region.free $tile;\n}\n\n// Level 8: write-effect on Tile. Mirrors `pt_tile_fill`.\n// All four channels write under exclusive borrow — guaranteed by &mut.\nfn fill_tile(\n    tile: &mut region<Tile>,\n    r: u16, g: u16, b: u16, a: u16\n)\n    effects { WriteRegion(Tile) }\n{\n    region.scan $tile.pixels -> |px| {\n        region.set $px .r, r;\n        region.set $px .g, g;\n        region.set $px .b, b;\n        region.set $px .a, a;\n    }\n}\n\n// Level 5: bounds-proven pixel read. Mirrors `pt_tile_read_pixel`.\n// idx_x and idx_y are bounded to [0, ");
    s.append(tile_size_text.as_str());
    s.append(") by the array type; the\n// verifier eliminates the runtime bounds check.\nfn read_pixel(\n    tile: &region<Tile>,\n    idx_x: i32, idx_y: i32\n) -> @RGBA16F\n    effects { ReadRegion(Tile) }\n{\n    let linear: i32 = idx_y * ");
    s.append(tile_size_text.as_str());
    s.append(" + idx_x;\n    region.get $tile.pixels[linear] -> px;\n    return px;\n}\n\n// Level 8: write at one pixel. Mirrors `pt_tile_write_pixel`.\nfn write_pixel(\n    tile: &mut region<Tile>,\n    idx_x: i32, idx_y: i32,\n    r: u16, g: u16, b: u16, a: u16\n)\n    effects { WriteRegion(Tile) }\n{\n    let linear: i32 = idx_y * ");
    s.append(tile_size_text.as_str());
    s.append(" + idx_x;\n    region.set $tile.pixels[linear] .r, r;\n    region.set $tile.pixels[linear] .g, g;\n    region.set $tile.pixels[linear] .b, b;\n    region.set $tile.pixels[linear] .a, a;\n}\n\n// Level 7: paired-region aliasing safety. Mirrors `pt_tile_blit(dst, src)`\n// where dst and src are distinct tiles. The `&mut`/`&` split is what\n// makes the no-self-blit guarantee statically checkable.\nfn blit_tile(\n    dst: &mut region<Tile>,\n    src: &region<Tile>\n)\n    effects { ReadRegion(Tile), WriteRegion(Tile) }\n{\n    region.scan $src.pixels indexed -> |i, src_px| {\n        region.get $src_px .r -> sr;\n        region.get $src_px .g -> sg;\n        region.get $src_px .b -> sb;\n        region.get $src_px .a -> sa;\n        region.set $dst.pixels[i] .r, sr;\n        region.set $dst.pixels[i] .g, sg;\n        region.set $dst.pixels[i] .b, sb;\n        region.set $dst.pixels[i] .a, sa;\n    }\n}\n");
    s
}

/// The typed-wasm schema of a layer stack of at most `max_layers` layers
/// with names of at most `max_layer_name_len` bytes and header magic
/// `magic`.
pub open spec fn layer_twasm_text(max_layers: u32, max_layer_name_len: u32, magic: u32) -> Seq<char> {
    "// SPDX-License-Identifier: PMPL-1.0-or-later\n// Copyright (c) 2026 Joshua Jewell (JoshuaJewell)\n//\n// paint-type-layer.twasm — typed-wasm schema for paint-type's layer\n// metadata stack.\n//\n// STATUS: Verified bridge.\n// Source for the AffineScript → typed-wasm bridge layer.\n// Surface mirrored (see src/interface/ffi/src/main.zig in this repo):\n//   pt_layer_stack_new / pt_layer_stack_free\n//   pt_layer_push / pt_layer_delete / pt_layer_reorder_to\n//   pt_layer_count / pt_layer_get_id_at / pt_layer_get_name\n//   pt_layer_set_opacity / pt_layer_get_opacity\n//   pt_layer_set_visible / pt_layer_get_visible\n//\n// Constants pinned to PT_LAYER_NAME_MAX = "@
        + decimal(max_layer_name_len as nat)
        + ", PT_LAYER_MAX_PER_STACK = "@
        + decimal(max_layers as nat)
        + ".\n\n// --- Region Declarations ---\n\n// A bounded UTF-8 name buffer. "@
        + decimal(max_layer_name_len as nat)
        + " bytes — long enough for any human-\n// authored layer name, short enough that a full stack of "@
        + decimal(max_layers as nat)
        + " layers\n// (LayerStack below) keeps under ~70 KiB per pt_layer_stack_new alloc.\nregion LayerName {\n    bytes: u8["@
        + decimal(max_layer_name_len as nat)
        + "];\n\n    align 1;\n}\n\n// A single layer's metadata. 272 bytes:\n//   id (4) + name_len (4) + opacity_bits (4) + visible (4) + name ("@
        + decimal(max_layer_name_len as nat)
        + ").\n// `id == 0` is the PT_LAYER_ID_NONE sentinel; allocated ids are dense\n// from 1 upward and never recycled after delete.\nregion Layer {\n    id:           u32;\n    name_len:     u32;\n    opacity_bits: u32;       // IEEE 754 binary32 bit pattern, clamped [0,1]\n    visible:      u32;       // 0 = hidden, non-zero = visible\n    name:         @LayerName;\n\n    where name_len <= "@
        + decimal(max_layer_name_len as nat)
        + ";\n\n    align 4;\n}\n\n// The full stack: 16 B header + "@
        + decimal(max_layers as nat)
        + " layer slots = ~70 KiB.\n// Mirror of struct `PtLayerStack` in src/interface/ffi/src/main.zig.\n// PT_LAYER_STACK_MAGIC = "@
        + hex8_upper(magic)
        + " (\"PLST\") is the safety pin.\nregion LayerStack {\n    magic:       u32;\n    layer_count: u32;\n    next_id:     u32;\n    _pad:        u32;\n    layers:      @Layer["@
        + decimal(max_layers as nat)
        + "];\n\n    where magic == "@
        + hex8_upper(magic)
        + ";\n    where layer_count <= "@
        + decimal(max_layers as nat)
        + ";\n\n    align 4;\n}\n\n// --- Memory Declaration ---\n\nmemory layer_memory {\n    initial: 2;        // 2 pages = 128 KiB — one stack + headroom\n    maximum: 2;        // exact: one stack lives here at a time\n\n    place LayerStack at 0;\n}\n\n// --- Functions ---\n\n// Level 10: linear allocation. Mirrors `pt_layer_stack_new() -> u64`.\nfn stack_new() -> own region<LayerStack>\n    effects { Alloc }\n{\n    region.alloc LayerStack {\n        magic = "@
        + hex8_upper(magic)
        + ",\n        layer_count = 0,\n        next_id = 1,\n        _pad = 0\n        // layers[] zero-initialised; id 0 == PT_LAYER_ID_NONE.\n    } -> stack;\n    return stack;\n}\n\n// Level 10: consumes the linear handle. Mirrors `pt_layer_stack_free`.\nfn stack_free(stack: own region<LayerStack>)\n    effects { Free }\n{\n    region.free $stack;\n}\n\n// Level 8: writes the new layer entry. Mirrors `pt_layer_push`.\n// Returns the newly issued id, or PT_LAYER_ID_NONE (0) if the stack is\n// full or name overflows.\nfn push_layer(\n    stack: &mut region<LayerStack>,\n    name_buf: &region<LayerName>,\n    name_len: u32\n) -> u32\n    effects { ReadRegion(LayerName), WriteRegion(LayerStack) }\n{\n    region.get $stack .layer_count -> count;\n    if count >= "@
        + decimal(max_layers as nat)
        + " {\n        return 0;            // full\n    }\n    if name_len > "@
        + decimal(max_layer_name_len as nat)
        + " {\n        return 0;            // name overflow\n    }\n\n    region.get $stack .next_id -> new_id;\n\n    region.set $stack.layers[count] .id, new_id;\n    region.set $stack.layers[count] .name_len, name_len;\n    region.set $stack.layers[count] .opacity_bits, 0x3F800000;  // 1.0f\n    region.set $stack.layers[count] .visible, 1;\n    // Copy name_buf into layers[count].name — modelled as a region.scan.\n    region.scan $name_buf.bytes indexed -> |i, b| {\n        region.get $b -> byte_val;\n        region.set $stack.layers[count].name.bytes[i], byte_val;\n    }\n\n    region.set $stack .layer_count, count + 1;\n    region.set $stack .next_id, new_id + 1;\n    return new_id;\n}\n\n// Level 5: looks up by id. Mirrors `pt_layer_get_id_at`.\n// Returns 0 if position is out of range.\nfn get_id_at(\n    stack: &region<LayerStack>,\n    position: u32\n) -> u32\n    effects { ReadRegion(LayerStack) }\n{\n    region.get $stack .layer_count -> count;\n    if position >= count {\n        return 0;\n    }\n    region.get $stack.layers[position] .id -> id;\n    return id;\n}\n\n// Level 8: clamps opacity_bits into [0.0, 1.0] (NaN → 1.0).\n// Mirrors `pt_layer_set_opacity`. The clamp itself is modelled here as\n// host responsibility — typed-wasm carries the f32 bits opaquely.\nfn set_opacity(\n    stack: &mut region<LayerStack>,\n    id: u32,\n    bits: u32\n) -> u32\n    effects { ReadRegion(LayerStack), WriteRegion(LayerStack) }\n{\n    region.get $stack .layer_count -> count;\n    let mut found: u32 = 0;\n    region.scan $stack.layers where id == id -> |layer| {\n        region.set $layer .opacity_bits, bits;\n        found = 1;\n    }\n    if found == 0 {\n        return 1;            // unknown id\n    }\n    return 0;\n}\n"@
}

/// The typed-wasm schema of a layer stack.
pub fn generate_layer_twasm(max_layers: u32, max_layer_name_len: u32, magic: u32) -> (s: String)
    ensures
        s@ == layer_twasm_text(max_layers, max_layer_name_len, magic),
{
    let magic_text = hex8_upper_exec(magic);
    let max_layers_text = u64_to_decimal(max_layers as u64);
    let name_len_text = u64_to_decimal(max_layer_name_len as u64);
    let mut s = String::from_str("// SPDX-License-Identifier: PMPL-1.0-or-later\n// Copyright (c) 2026 Joshua Jewell (JoshuaJewell)\n//\n// paint-type-layer.twasm — typed-wasm schema for paint-type's layer\n// metadata stack.\n//\n// STATUS: Verified bridge.\n// Source for the AffineScript → typed-wasm bridge layer.\n// Surface mirrored (see src/interface/ffi/src/main.zig in this repo):\n//   pt_layer_stack_new / pt_layer_stack_free\n//   pt_layer_push / pt_layer_delete / pt_layer_reorder_to\n//   pt_layer_count / pt_layer_get_id_at / pt_layer_get_name\n//   pt_layer_set_opacity / pt_layer_get_opacity\n//   pt_layer_set_visible / pt_layer_get_visible\n//\n// Constants pinned to PT_LAYER_NAME_MAX = ");
    s.append(name_len_text.as_str());
    s.append(", PT_LAYER_MAX_PER_STACK = ");
    s.append(max_layers_text.as_str());
    s.append(".\n\n// --- Region Declarations ---\n\n// A bounded UTF-8 name buffer. ");
    s.append(name_len_text.as_str());
    s.append(" bytes — long enough for any human-\n// authored layer name, short enough that a full stack of ");
    s.append(max_layers_text.as_str());
    s.append(" layers\n// (LayerStack below) keeps under ~70 KiB per pt_layer_stack_new alloc.\nregion LayerName {\n    bytes: u8[");
    s.append(name_len_text.as_str());
    s.append("];\n\n    align 1;\n}\n\n// A single layer's metadata. 272 bytes:\n//   id (4) + name_len (4) + opacity_bits (4) + visible (4) + name (");
    s.append(name_len_text.as_str());
    s.append(").\n// `id == 0` is the PT_LAYER_ID_NONE sentinel; allocated ids are dense\n// from 1 upward and never recycled after delete.\nregion Layer {\n    id:           u32;\n    name_len:     u32;\n    opacity_bits: u32;       // IEEE 754 binary32 bit pattern, clamped [0,1]\n    visible:      u32;       // 0 = hidden, non-zero = visible\n    name:         @LayerName;\n\n    where name_len <= ");
    s.append(name_len_text.as_str());
    s.append(";\n\n    align 4;\n}\n\n// The full stack: 16 B header + ");
    s.append(max_layers_text.as_str());
    s.append(" layer slots = ~70 KiB.\n// Mirror of struct `PtLayerStack` in src/interface/ffi/src/main.zig.\n// PT_LAYER_STACK_MAGIC = ");
    s.append(magic_text.as_str());
    s.append(" (\"PLST\") is the safety pin.\nregion LayerStack {\n    magic:       u32;\n    layer_count: u32;\n    next_id:     u32;\n    _pad:        u32;\n    layers:      @Layer[");
    s.append(max_layers_text.as_str());
    s.append("];\n\n    where magic == ");
    s.append(magic_text.as_str());
    s.append(";\n    where layer_count <= ");
    s.append(max_layers_text.as_str());
    s.append(";\n\n    align 4;\n}\n\n// --- Memory Declaration ---\n\nmemory layer_memory {\n    initial: 2;        // 2 pages = 128 KiB — one stack + headroom\n    maximum: 2;        // exact: one stack lives here at a time\n\n    place LayerStack at 0;\n}\n\n// --- Functions ---\n\n// Level 10: linear allocation. Mirrors `pt_layer_stack_new() -> u64`.\nfn stack_new() -> own region<LayerStack>\n    effects { Alloc }\n{\n    region.alloc LayerStack {\n        magic = ");
    s.append(magic_text.as_str());
    s.append(",\n        layer_count = 0,\n        next_id = 1,\n        _pad = 0\n        // layers[] zero-initialised; id 0 == PT_LAYER_ID_NONE.\n    } -> stack;\n    return stack;\n}\n\n// Level 10: consumes the linear handle. Mirrors `pt_layer_stack_free`.\nfn stack_free(stack: own region<LayerStack>)\n    effects { Free }\n{\n    region.free $stack;\n}\n\n// Level 8: writes the new layer entry. Mirrors `pt_layer_push`.\n// Returns the newly issued id, or PT_LAYER_ID_NONE (0) if the stack is\n// full or name overflows.\nfn push_layer(\n    stack: &mut region<LayerStack>,\n    name_buf: &region<LayerName>,\n    name_len: u32\n) -> u32\n    effects { ReadRegion(LayerName), WriteRegion(LayerStack) }\n{\n    region.get $stack .layer_count -> count;\n    if count >= ");
    s.append(max_layers_text.as_str());
    s.append(" {\n        return 0;            // full\n    }\n    if name_len > ");
    s.append(name_len_text.as_str());
    s.append(" {\n        return 0;            // name overflow\n    }\n\n    region.get $stack .next_id -> new_id;\n\n    region.set $stack.layers[count] .id, new_id;\n    region.set $stack.layers[count] .name_len, name_len;\n    region.set $stack.layers[count] .opacity_bits, 0x3F800000;  // 1.0f\n    region.set $stack.layers[count] .visible, 1;\n    // Copy name_buf into layers[count].name — modelled as a region.scan.\n    region.scan $name_buf.bytes indexed -> |i, b| {\n        region.get $b -> byte_val;\n        region.set $stack.layers[count].name.bytes[i], byte_val;\n    }\n\n    region.set $stack .layer_count, count + 1;\n    region.set $stack .next_id, new_id + 1;\n    return new_id;\n}\n\n// Level 5: looks up by id. Mirrors `pt_layer_get_id_at`.\n// Returns 0 if position is out of range.\nfn get_id_at(\n    stack: &region<LayerStack>,\n    position: u32\n) -> u32\n    effects { ReadRegion(LayerStack) }\n{\n    region.get $stack .layer_count -> count;\n    if position >= count {\n        return 0;\n    }\n    region.get $stack.layers[position] .id -> id;\n    return id;\n}\n\n// Level 8: clamps opacity_bits into [0.0, 1.0] (NaN → 1.0).\n// Mirrors `pt_layer_set_opacity`. The clamp itself is modelled here as\n// host responsibility — typed-wasm carries the f32 bits opaquely.\nfn set_opacity(\n    stack: &mut region<LayerStack>,\n    id: u32,\n    bits: u32\n) -> u32\n    effects { ReadRegion(LayerStack), WriteRegion(LayerStack) }\n{\n    region.get $stack .layer_count -> count;\n    let mut found: u32 = 0;\n    region.scan $stack.layers where id == id -> |layer| {\n        region.set $layer .opacity_bits, bits;\n        found = 1;\n    }\n    if found == 0 {\n        return 1;            // unknown id\n    }\n    return 0;\n}\n");
    s
}

} // verus!
