//! The `.ptype` native container (draft v1): a lossless, little-endian
//! serialisation of a canvas whose tiles hold raw half-float bit patterns.
//!
//! Floating-point fields of the canvas (the background colour and the
//! layer opacities) are carried here as their IEEE-754 bit patterns
//! (`u32` for `f32`, `u64` for `f64`); the codec moves those patterns to
//! and from disk without ever interpreting them, exactly as it does for
//! the tile scalars.

use vstd::prelude::*;
use crate::text::{decimal, u64_to_decimal};

verus! {

broadcast use vstd::seq_lib::group_seq_properties;

/// Tile edge length in pixels.
pub const TILE_SIZE: u32 = 64;

/// Channels per pixel (R, G, B, A).
pub const TILE_CHANNELS: u32 = 4;

/// Scalars per tile: `TILE_SIZE * TILE_SIZE * TILE_CHANNELS`.
pub const TILE_SCALARS: usize = 16384;

/// Pixel format discriminant of RGBA16F, the only format draft v1 defines.
pub const FORMAT_RGBA16F: u32 = 0;

/// On-disk format version understood by this codec.
pub const VERSION: u16 = 1;

/// Container flags: draft v1 defines only `0` (uncompressed).
pub const FLAGS_NONE: u16 = 0;

/// The 8-byte container signature `0x89 P T Y P E CR LF`.
pub open spec fn spec_magic() -> Seq<u8> {
    seq![0x89u8, 0x50u8, 0x54u8, 0x59u8, 0x50u8, 0x45u8, 0x0Du8, 0x0Au8]
}

/// The 8-byte container signature `0x89 P T Y P E CR LF`.
pub fn magic() -> (m: [u8; 8])
    ensures
        m@ == spec_magic(),
{
    let m = [0x89u8, 0x50u8, 0x54u8, 0x59u8, 0x50u8, 0x45u8, 0x0Du8, 0x0Au8];
    assert(m@ =~= spec_magic());
    m
}

/// Layer blend mode; wire discriminants 0, 1, 2.
#[derive(Clone, Copy, Debug, PartialEq, Eq, Structural)]
pub enum BlendMode {
    Normal,
    Multiply,
    Screen,
}

/// Wire discriminant of a blend mode.
pub open spec fn blend_code(b: BlendMode) -> u32 {
    match b {
        BlendMode::Normal => 0,
        BlendMode::Multiply => 1,
        BlendMode::Screen => 2,
    }
}

impl BlendMode {
    /// Wire discriminant.
    pub fn to_u32(self) -> (r: u32)
        ensures
            r == blend_code(self),
    {
        match self {
            BlendMode::Normal => 0,
            BlendMode::Multiply => 1,
            BlendMode::Screen => 2,
        }
    }

    /// Parse a wire discriminant; unknown values are rejected.
    pub fn from_u32(v: u32) -> (r: Result<BlendMode, DecodeError>)
        ensures
            v < 3 ==> (r matches Ok(b) && blend_code(b) == v),
            v >= 3 ==> r == Err::<BlendMode, DecodeError>(DecodeError::UnknownBlendMode(v)),
    {
        match v {
            0 => Ok(BlendMode::Normal),
            1 => Ok(BlendMode::Multiply),
            2 => Ok(BlendMode::Screen),
            other => Err(DecodeError::UnknownBlendMode(other)),
        }
    }
}

/// Sparse-tile grid coordinate (tile units), ordered by `tx` then `ty`.
#[derive(Clone, Copy, Debug, PartialEq, Eq, Structural)]
pub struct TileKey {
    pub tx: u32,
    pub ty: u32,
}

/// Strict lexicographic order on tile keys.
pub open spec fn key_lt(a: TileKey, b: TileKey) -> bool {
    a.tx < b.tx || (a.tx == b.tx && a.ty < b.ty)
}

fn key_less(a: TileKey, b: TileKey) -> (r: bool)
    ensures
        r == key_lt(a, b),
{
    a.tx < b.tx || (a.tx == b.tx && a.ty < b.ty)
}

/// A 64x64 RGBA16F tile: `TILE_SCALARS` half-float bit patterns,
/// row-major, channel-interleaved.
#[derive(Clone, Debug, PartialEq, Eq)]
pub struct Tile {
    pub pixels: Vec<u16>,
}

impl Tile {
    /// A fully transparent (all-zero) tile.
    pub fn zeroed() -> (t: Tile)
        ensures
            t.pixels@.len() == TILE_SCALARS,
            forall|i: int| 0 <= i < TILE_SCALARS ==> t.pixels@[i] == 0,
    {
        let mut pixels: Vec<u16> = Vec::new();
        let mut i: usize = 0;
        while i < TILE_SCALARS
            invariant
                i <= TILE_SCALARS,
                pixels@.len() == i,
                forall|j: int| 0 <= j < i ==> pixels@[j] == 0,
            decreases TILE_SCALARS - i,
        {
            pixels.push(0);
            i += 1;
        }
        Tile { pixels }
    }
}

/// One layer: name, visibility, opacity (as `f64` bits), blend mode, and
/// its sparse tiles kept in strictly increasing key order.
#[derive(Clone, Debug, PartialEq)]
pub struct Layer {
    pub name: String,
    pub visible: bool,
    pub opacity: u64,
    pub blend: BlendMode,
    pub tiles: Vec<(TileKey, Tile)>,
}

/// A whole canvas: dimensions, pixel format, background colour (as `f32`
/// bits, R G B A), and the layer stack from bottom to top.
#[derive(Clone, Debug, PartialEq)]
pub struct Canvas {
    pub width: u32,
    pub height: u32,
    pub format: u32,
    pub background: [u32; 4],
    pub layers: Vec<Layer>,
}

/// The mathematical content of a layer.
#[verifier::ext_equal]
pub struct LayerModel {
    pub name: Seq<char>,
    pub visible: bool,
    pub opacity: u64,
    pub blend: BlendMode,
    pub tiles: Seq<(TileKey, Seq<u16>)>,
}

/// The mathematical content of a canvas.
#[verifier::ext_equal]
pub struct CanvasModel {
    pub width: u32,
    pub height: u32,
    pub format: u32,
    pub background: Seq<u32>,
    pub layers: Seq<LayerModel>,
}

/// Tile entries with each tile replaced by its scalar sequence.
pub open spec fn tiles_model(ts: Seq<(TileKey, Tile)>) -> Seq<(TileKey, Seq<u16>)> {
    Seq::new(ts.len(), |i: int| (ts[i].0, ts[i].1.pixels@))
}

/// The models of a sequence of layers.
pub open spec fn layers_model(ls: Seq<Layer>) -> Seq<LayerModel> {
    Seq::new(ls.len(), |i: int| ls[i].model())
}

impl Layer {
    pub open spec fn model(&self) -> LayerModel {
        LayerModel {
            name: self.name@,
            visible: self.visible,
            opacity: self.opacity,
            blend: self.blend,
            tiles: tiles_model(self.tiles@),
        }
    }

    /// A visible, fully opaque (`1.0`), normal-blend layer with no tiles.
    pub fn new(name: String) -> (l: Layer)
        ensures
            l.name@ == name@,
            l.visible,
            l.opacity == 0x3FF0_0000_0000_0000u64,
            l.blend == BlendMode::Normal,
            l.tiles@.len() == 0,
    {
        Layer {
            name,
            visible: true,
            opacity: 0x3FF0_0000_0000_0000u64,
            blend: BlendMode::Normal,
            tiles: Vec::new(),
        }
    }
}

impl Canvas {
    pub open spec fn model(&self) -> CanvasModel {
        CanvasModel {
            width: self.width,
            height: self.height,
            format: self.format,
            background: self.background@,
            layers: layers_model(self.layers@),
        }
    }

    /// An empty RGBA16F canvas with a transparent background and no layers.
    pub fn new(width: u32, height: u32) -> (c: Canvas)
        ensures
            c.width == width,
            c.height == height,
            c.format == FORMAT_RGBA16F,
            c.background@ == seq![0u32, 0u32, 0u32, 0u32],
            c.layers@.len() == 0,
    {
        let background = [0u32, 0u32, 0u32, 0u32];
        assert(background@ =~= seq![0u32, 0u32, 0u32, 0u32]);
        Canvas { width, height, format: FORMAT_RGBA16F, background, layers: Vec::new() }
    }
}

/// Why a byte sequence failed to decode as a `.ptype` container.
#[derive(Clone, Copy, Debug, PartialEq, Eq)]
pub enum DecodeError {
    /// The first 8 bytes were not the signature.
    BadMagic,
    /// Version field other than `VERSION`.
    UnsupportedVersion(u16),
    /// Flags field other than `FLAGS_NONE`.
    UnsupportedFlags(u16),
    /// Format field other than `FORMAT_RGBA16F`.
    UnsupportedFormat(u32),
    /// Recorded tile geometry other than 64x64 with 4 channels.
    TileGeometryMismatch { got: (u32, u32), expected: (u32, u32) },
    /// Blend-mode discriminant outside the defined set.
    UnknownBlendMode(u32),
    /// A field would extend past the end of the input.
    UnexpectedEof { context: &'static str },
    /// A layer name was not valid UTF-8.
    InvalidUtf8 { context: &'static str },
    /// Bytes remained after a complete canvas.
    TrailingBytes { extra: usize },
}

//==============================================================================
// Little-endian integers
//==============================================================================

/// The `n` low-order bytes of `x`, least significant first.
pub open spec fn le_bytes(x: nat, n: nat) -> Seq<u8>
    decreases n,
{
    if n == 0 {
        Seq::empty()
    } else {
        seq![(x % 256) as u8] + le_bytes(x / 256, (n - 1) as nat)
    }
}

/// The unsigned integer whose little-endian bytes are `s`.
pub open spec fn le_value(s: Seq<u8>) -> nat
    decreases s.len(),
{
    if s.len() == 0 {
        0
    } else {
        s[0] as nat + 256 * le_value(s.drop_first())
    }
}

pub open spec fn pow256(n: nat) -> nat
    decreases n,
{
    if n == 0 {
        1
    } else {
        256 * pow256((n - 1) as nat)
    }
}

proof fn lemma_le_bytes_len(x: nat, n: nat)
    ensures
        le_bytes(x, n).len() == n,
    decreases n,
{
    if n > 0 {
        lemma_le_bytes_len(x / 256, (n - 1) as nat);
    }
}

proof fn lemma_le_round_trip(x: nat, n: nat)
    requires
        x < pow256(n),
    ensures
        le_value(le_bytes(x, n)) == x,
        le_bytes(x, n).len() == n,
    decreases n,
{
    lemma_le_bytes_len(x, n);
    if n > 0 {
        assert(x / 256 < pow256((n - 1) as nat)) by (nonlinear_arith)
            requires
                x < 256 * pow256((n - 1) as nat),
        ;
        lemma_le_round_trip(x / 256, (n - 1) as nat);
        assert(le_bytes(x, n).drop_first() =~= le_bytes(x / 256, (n - 1) as nat));
    }
}

proof fn lemma_le_value_bound(s: Seq<u8>)
    ensures
        le_value(s) < pow256(s.len()),
    decreases s.len(),
{
    if s.len() > 0 {
        lemma_le_value_bound(s.drop_first());
        let r = le_value(s.drop_first());
        let p = pow256((s.len() - 1) as nat);
        assert(s[0] as nat + 256 * r < 256 * p) by (nonlinear_arith)
            requires
                r < p,
                s[0] < 256,
        ;
    }
}

proof fn lemma_pow256_values()
    ensures
        pow256(2) == 0x1_0000,
        pow256(4) == 0x1_0000_0000,
        pow256(8) == 0x1_0000_0000_0000_0000,
{
    reveal_with_fuel(pow256, 9);
}

/// Append the `n` low-order bytes of `x`, least significant first.
fn push_le(out: &mut Vec<u8>, x: u64, n: usize)
    requires
        n <= 8,
    ensures
        final(out)@ == old(out)@ + le_bytes(x as nat, n as nat),
    decreases n,
{
    if n > 0 {
        out.push((x % 256) as u8);
        push_le(out, x / 256, n - 1);
    }
}

/// The little-endian integer held in `buf[pos..pos + n]`.
fn read_le(buf: &[u8], pos: usize, n: usize) -> (r: u64)
    requires
        n <= 8,
        pos + n <= buf@.len(),
    ensures
        r as nat == le_value(buf@.subrange(pos as int, pos + n)),
    decreases n,
{
    if n == 0 {
        0
    } else {
        let len = buf.len();
        assert(pos + 1 <= len);
        let rest = read_le(buf, pos + 1, n - 1);
        proof {
            assert(buf@.subrange(pos as int, pos + n).drop_first() =~= buf@.subrange(pos + 1, pos + n));
            lemma_le_value_bound(buf@.subrange(pos + 1, pos + n));
            lemma_pow256_values();
            lemma_pow256_mono((n - 1) as nat, 7);
        }
        buf[pos] as u64 + 256 * rest
    }
}

proof fn lemma_pow256_mono(a: nat, b: nat)
    requires
        a <= b,
    ensures
        pow256(a) <= pow256(b),
    decreases b,
{
    if a < b {
        lemma_pow256_mono(a, (b - 1) as nat);
    }
}


//==============================================================================
// Byte layout
//==============================================================================

/// Concatenation of byte strings, in order.
pub open spec fn concat(parts: Seq<Seq<u8>>) -> Seq<u8>
    decreases parts.len(),
{
    if parts.len() == 0 {
        Seq::empty()
    } else {
        concat(parts.drop_last()) + parts.last()
    }
}

/// Half-float scalars, two little-endian bytes each.
pub open spec fn u16s_bytes(px: Seq<u16>) -> Seq<u8> {
    Seq::new(
        2 * px.len(),
        |j: int|
            if j % 2 == 0 {
                (px[j / 2] % 256) as u8
            } else {
                (px[j / 2] / 256) as u8
            },
    )
}

/// One tile record: `tx`, `ty`, then its scalars.
pub open spec fn tile_bytes(e: (TileKey, Seq<u16>)) -> Seq<u8> {
    le_bytes(e.0.tx as nat, 4) + le_bytes(e.0.ty as nat, 4) + u16s_bytes(e.1)
}

pub open spec fn tile_parts(ts: Seq<(TileKey, Seq<u16>)>) -> Seq<Seq<u8>> {
    Seq::new(ts.len(), |i: int| tile_bytes(ts[i]))
}

/// One layer record: name length and UTF-8 name, visibility byte,
/// opacity bits, blend discriminant, tile count, then the tile records.
pub open spec fn layer_bytes(l: LayerModel) -> Seq<u8> {
    let nb = vstd::utf8::encode_utf8(l.name);
    le_bytes((nb.len() as u32) as nat, 4) + nb + seq![if l.visible { 1u8 } else { 0u8 }]
        + le_bytes(l.opacity as nat, 8) + le_bytes(blend_code(l.blend) as nat, 4) + le_bytes(
        (l.tiles.len() as u32) as nat,
        4,
    ) + concat(tile_parts(l.tiles))
}

pub open spec fn layer_parts(ls: Seq<LayerModel>) -> Seq<Seq<u8>> {
    Seq::new(ls.len(), |i: int| layer_bytes(ls[i]))
}

/// The fixed-size header: signature, version, flags, format, width,
/// height, background, tile geometry, and layer count.
pub open spec fn header_bytes(c: CanvasModel) -> Seq<u8> {
    spec_magic() + le_bytes(1, 2) + le_bytes(0, 2) + le_bytes(c.format as nat, 4) + le_bytes(
        c.width as nat,
        4,
    ) + le_bytes(c.height as nat, 4) + le_bytes(c.background[0] as nat, 4) + le_bytes(
        c.background[1] as nat,
        4,
    ) + le_bytes(c.background[2] as nat, 4) + le_bytes(c.background[3] as nat, 4) + le_bytes(64, 4)
        + le_bytes(4, 4) + le_bytes((c.layers.len() as u32) as nat, 4)
}

/// The complete `.ptype` byte stream of a canvas.
pub open spec fn canvas_bytes(c: CanvasModel) -> Seq<u8> {
    header_bytes(c) + concat(layer_parts(c.layers))
}

proof fn lemma_concat_push(parts: Seq<Seq<u8>>, i: int)
    requires
        0 <= i < parts.len(),
    ensures
        concat(parts.take(i + 1)) == concat(parts.take(i)) + parts[i],
{
    assert(parts.take(i + 1).drop_last() =~= parts.take(i));
}

fn push_u16s(out: &mut Vec<u8>, px: &Vec<u16>)
    ensures
        final(out)@ == old(out)@ + u16s_bytes(px@),
{
    let mut i: usize = 0;
    let n = px.len();
    while i < n
        invariant
            n == px@.len(),
            i <= n,
            out@ == old(out)@ + u16s_bytes(px@.take(i as int)),
        decreases n - i,
    {
        let v = px[i];
        proof {
            assert(u16s_bytes(px@.take(i as int + 1)) =~= u16s_bytes(px@.take(i as int)) + seq![
                (v % 256) as u8,
                (v / 256) as u8,
            ]);
        }
        out.push((v % 256) as u8);
        out.push((v / 256) as u8);
        i += 1;
    }
    assert(px@.take(n as int) =~= px@);
}

fn push_tile(out: &mut Vec<u8>, key: TileKey, tile: &Tile)
    ensures
        final(out)@ == old(out)@ + tile_bytes((key, tile.pixels@)),
{
    push_le(out, key.tx as u64, 4);
    push_le(out, key.ty as u64, 4);
    push_u16s(out, &tile.pixels);
}

fn push_bytes(out: &mut Vec<u8>, bytes: &[u8])
    ensures
        final(out)@ == old(out)@ + bytes@,
{
    let mut i: usize = 0;
    let ghost start = out@;
    while i < bytes.len()
        invariant
            i <= bytes@.len(),
            out@ == start + bytes@.take(i as int),
        decreases bytes@.len() - i,
    {
        out.push(bytes[i]);
        i += 1;
        assert(out@ =~= start + bytes@.take(i as int));
    }
    assert(bytes@.take(bytes@.len() as int) =~= bytes@);
}

fn push_tiles(out: &mut Vec<u8>, tiles: &Vec<(TileKey, Tile)>)
    ensures
        final(out)@ == old(out)@ + concat(tile_parts(tiles_model(tiles@))),
{
    let ghost before_tiles = out@;
    let ghost parts = tile_parts(tiles_model(tiles@));
    let mut t: usize = 0;
    while t < tiles.len()
        invariant
            t <= tiles@.len(),
            parts == tile_parts(tiles_model(tiles@)),
            out@ == before_tiles + concat(parts.take(t as int)),
        decreases tiles@.len() - t,
    {
        let entry = &tiles[t];
        push_tile(out, entry.0, &entry.1);
        proof {
            lemma_concat_push(parts, t as int);
        }
        t += 1;
    }
    assert(parts.take(tiles@.len() as int) =~= parts);
}

fn push_layer(out: &mut Vec<u8>, layer: &Layer)
    ensures
        final(out)@ == old(out)@ + layer_bytes(layer.model()),
{
    let name = layer.name.as_str();
    let nb = name.as_bytes();
    let ghost o0 = out@;
    push_le(out, nb.len() as u32 as u64, 4);
    let ghost o1 = out@;
    push_bytes(out, nb);
    let ghost o2 = out@;
    out.push(if layer.visible { 1u8 } else { 0u8 });
    let ghost o3 = out@;
    push_le(out, layer.opacity, 8);
    let ghost o4 = out@;
    push_le(out, layer.blend.to_u32() as u64, 4);
    let ghost o5 = out@;
    push_le(out, layer.tiles.len() as u32 as u64, 4);
    let ghost o6 = out@;
    push_tiles(out, &layer.tiles);
    proof {
        let m = layer.model();
        let nbs = vstd::utf8::encode_utf8(m.name);
        assert(nb@ == nbs);
        assert(tiles_model(layer.tiles@).len() == layer.tiles@.len());
        assert(out@ =~= o0 + (le_bytes((nbs.len() as u32) as nat, 4) + nbs + seq![
            if m.visible { 1u8 } else { 0u8 },
        ] + le_bytes(m.opacity as nat, 8) + le_bytes(blend_code(m.blend) as nat, 4) + le_bytes(
            (m.tiles.len() as u32) as nat,
            4,
        ) + concat(tile_parts(m.tiles))));
    }
}

/// Serialise a canvas to the draft-v1 `.ptype` byte layout. Layers are
/// written in stack order and tiles in stored order, so the output is a
/// deterministic function of the canvas.
pub fn encode(canvas: &Canvas) -> (out: Vec<u8>)
    ensures
        out@ == canvas_bytes(canvas.model()),
{
    let mut out: Vec<u8> = Vec::new();
    let m = magic();
    let mut i: usize = 0;
    while i < 8
        invariant
            i <= 8,
            m@ == spec_magic(),
            out@ == spec_magic().take(i as int),
        decreases 8 - i,
    {
        out.push(m[i]);
        i += 1;
        assert(out@ =~= spec_magic().take(i as int));
    }
    assert(spec_magic().take(8) =~= spec_magic());
    push_le(&mut out, VERSION as u64, 2);
    push_le(&mut out, FLAGS_NONE as u64, 2);
    push_le(&mut out, canvas.format as u64, 4);
    push_le(&mut out, canvas.width as u64, 4);
    push_le(&mut out, canvas.height as u64, 4);
    push_le(&mut out, canvas.background[0] as u64, 4);
    push_le(&mut out, canvas.background[1] as u64, 4);
    push_le(&mut out, canvas.background[2] as u64, 4);
    push_le(&mut out, canvas.background[3] as u64, 4);
    push_le(&mut out, TILE_SIZE as u64, 4);
    push_le(&mut out, TILE_CHANNELS as u64, 4);
    push_le(&mut out, canvas.layers.len() as u32 as u64, 4);
    assert(out@ =~= header_bytes(canvas.model()));
    let ghost header = out@;
    let ghost parts = layer_parts(canvas.model().layers);
    let mut l: usize = 0;
    while l < canvas.layers.len()
        invariant
            l <= canvas.layers@.len(),
            parts == layer_parts(canvas.model().layers),
            out@ == header + concat(parts.take(l as int)),
        decreases canvas.layers@.len() - l,
    {
        push_layer(&mut out, &canvas.layers[l]);
        proof {
            lemma_concat_push(parts, l as int);
        }
        l += 1;
    }
    assert(parts.take(canvas.layers@.len() as int) =~= parts);
    out
}

//==============================================================================
// Decoding
//==============================================================================

pub open spec fn eof(context: &'static str) -> DecodeError {
    DecodeError::UnexpectedEof { context }
}

/// The little-endian value of the `n` bytes at `pos`, if they exist.
pub open spec fn rd(s: Seq<u8>, pos: nat, n: nat) -> Option<nat> {
    if pos + n <= s.len() {
        Some(le_value(s.subrange(pos as int, (pos + n) as int)))
    } else {
        None
    }
}

/// The `TILE_SCALARS` half-float scalars stored at `pos`, if they fit.
pub open spec fn rd_pixels(s: Seq<u8>, pos: nat) -> Option<Seq<u16>> {
    if pos + 2 * TILE_SCALARS <= s.len() {
        Some(
            Seq::new(
                TILE_SCALARS as nat,
                |i: int| (s[pos + 2 * i] as nat + 256 * s[pos + 2 * i + 1] as nat) as u16,
            ),
        )
    } else {
        None
    }
}

/// Number of leading entries of the key-sorted `ts` whose key is below `k`.
pub open spec fn lower_bound(ts: Seq<(TileKey, Seq<u16>)>, k: TileKey) -> nat
    decreases ts.len(),
{
    if ts.len() == 0 {
        0
    } else if key_lt(ts[0].0, k) {
        1 + lower_bound(ts.drop_first(), k)
    } else {
        0
    }
}

/// Insert `(k, v)` into the key-sorted `ts`, replacing an entry with the
/// same key (the last write for a key wins, as with a sorted map).
pub open spec fn insert_tile(ts: Seq<(TileKey, Seq<u16>)>, k: TileKey, v: Seq<u16>) -> Seq<
    (TileKey, Seq<u16>),
> {
    let i = lower_bound(ts, k) as int;
    if i < ts.len() && ts[i].0 == k {
        ts.update(i, (k, v))
    } else {
        ts.insert(i, (k, v))
    }
}

/// Keys strictly increasing.
pub open spec fn sorted_keys(ts: Seq<(TileKey, Seq<u16>)>) -> bool {
    forall|i: int, j: int| 0 <= i < j < ts.len() ==> key_lt(#[trigger] ts[i].0, #[trigger] ts[j].0)
}

/// Decode `count` tile records starting at `pos`, inserting each into `acc`.
pub open spec fn dec_tiles(s: Seq<u8>, pos: nat, count: nat, acc: Seq<(TileKey, Seq<u16>)>) -> Result<
    (Seq<(TileKey, Seq<u16>)>, nat),
    DecodeError,
>
    decreases count,
{
    if count == 0 {
        Ok((acc, pos))
    } else {
        match rd(s, pos, 4) {
            None => Err(eof("tile.tx")),
            Some(tx) => match rd(s, pos + 4, 4) {
                None => Err(eof("tile.ty")),
                Some(ty) => match rd_pixels(s, pos + 8) {
                    None => Err(eof("tile pixel")),
                    Some(px) => dec_tiles(
                        s,
                        (pos + 8 + 2 * TILE_SCALARS) as nat,
                        (count - 1) as nat,
                        insert_tile(acc, TileKey { tx: tx as u32, ty: ty as u32 }, px),
                    ),
                },
            },
        }
    }
}

/// Decode one layer record at `pos`; on success also the end position.
pub open spec fn dec_layer(s: Seq<u8>, pos: nat) -> Result<(LayerModel, nat), DecodeError> {
    match rd(s, pos, 4) {
        None => Err(eof("layer name length")),
        Some(name_len) => if pos + 4 + name_len > s.len() {
            Err(eof("layer name"))
        } else {
            let nb = s.subrange(pos + 4 as int, pos + 4 + name_len as int);
            let p1 = pos + 4 + name_len;
            if !vstd::utf8::valid_utf8(nb) {
                Err(DecodeError::InvalidUtf8 { context: "layer name" })
            } else {
                match rd(s, p1, 1) {
                    None => Err(eof("layer visible")),
                    Some(vis) => match rd(s, p1 + 1, 8) {
                        None => Err(eof("layer opacity")),
                        Some(op) => match rd(s, p1 + 9, 4) {
                            None => Err(eof("layer blend")),
                            Some(bl) => if bl >= 3 {
                                Err(DecodeError::UnknownBlendMode(bl as u32))
                            } else {
                                match rd(s, p1 + 13, 4) {
                                    None => Err(eof("tile_count")),
                                    Some(tc) => match dec_tiles(s, p1 + 17, tc, Seq::empty()) {
                                        Err(e) => Err(e),
                                        Ok((tiles, end)) => Ok(
                                            (
                                                LayerModel {
                                                    name: vstd::utf8::decode_utf8(nb),
                                                    visible: vis != 0,
                                                    opacity: op as u64,
                                                    blend: if bl == 0 {
                                                        BlendMode::Normal
                                                    } else if bl == 1 {
                                                        BlendMode::Multiply
                                                    } else {
                                                        BlendMode::Screen
                                                    },
                                                    tiles,
                                                },
                                                end,
                                            ),
                                        ),
                                    },
                                }
                            },
                        },
                    },
                }
            }
        },
    }
}

/// Decode `count` layer records starting at `pos`, appending to `acc`.
pub open spec fn dec_layers(s: Seq<u8>, pos: nat, count: nat, acc: Seq<LayerModel>) -> Result<
    (Seq<LayerModel>, nat),
    DecodeError,
>
    decreases count,
{
    if count == 0 {
        Ok((acc, pos))
    } else {
        match dec_layer(s, pos) {
            Err(e) => Err(e),
            Ok((l, end)) => dec_layers(s, end, (count - 1) as nat, acc.push(l)),
        }
    }
}

/// What decoding `s` yields: the canvas, or the first error met when the
/// fields are read in order.
pub open spec fn spec_decode(s: Seq<u8>) -> Result<CanvasModel, DecodeError> {
    if s.len() < 8 {
        Err(eof("magic"))
    } else if s.subrange(0, 8) != spec_magic() {
        Err(DecodeError::BadMagic)
    } else {
        match rd(s, 8, 2) {
            None => Err(eof("version")),
            Some(ver) => if ver != 1 {
                Err(DecodeError::UnsupportedVersion(ver as u16))
            } else {
                match rd(s, 10, 2) {
                    None => Err(eof("flags")),
                    Some(flags) => if flags != 0 {
                        Err(DecodeError::UnsupportedFlags(flags as u16))
                    } else {
                        match rd(s, 12, 4) {
                            None => Err(eof("format")),
                            Some(format) => if format != 0 {
                                Err(DecodeError::UnsupportedFormat(format as u32))
                            } else {
                                spec_decode_body(s)
                            },
                        }
                    },
                }
            },
        }
    }
}

/// The part of `spec_decode` after the format field.
pub open spec fn spec_decode_body(s: Seq<u8>) -> Result<CanvasModel, DecodeError> {
    match rd(s, 16, 4) {
        None => Err(eof("width")),
        Some(w) => match rd(s, 20, 4) {
            None => Err(eof("height")),
            Some(h) => match rd(s, 24, 4) {
                None => Err(eof("bg.r")),
                Some(r) => match rd(s, 28, 4) {
                    None => Err(eof("bg.g")),
                    Some(g) => match rd(s, 32, 4) {
                        None => Err(eof("bg.b")),
                        Some(b) => match rd(s, 36, 4) {
                            None => Err(eof("bg.a")),
                            Some(a) => match rd(s, 40, 4) {
                                None => Err(eof("tile_size")),
                                Some(ts) => match rd(s, 44, 4) {
                                    None => Err(eof("tile_channels")),
                                    Some(tc) => if ts != 64 || tc != 4 {
                                        Err(
                                            DecodeError::TileGeometryMismatch {
                                                got: (ts as u32, tc as u32),
                                                expected: (64, 4),
                                            },
                                        )
                                    } else {
                                        match rd(s, 48, 4) {
                                            None => Err(eof("layer_count")),
                                            Some(lc) => match dec_layers(s, 52, lc, Seq::empty()) {
                                                Err(e) => Err(e),
                                                Ok((layers, end)) => if end != s.len() {
                                                    Err(
                                                        DecodeError::TrailingBytes {
                                                            extra: (s.len() - end) as usize,
                                                        },
                                                    )
                                                } else {
                                                    Ok(
                                                        CanvasModel {
                                                            width: w as u32,
                                                            height: h as u32,
                                                            format: 0,
                                                            background: seq![
                                                                r as u32,
                                                                g as u32,
                                                                b as u32,
                                                                a as u32,
                                                            ],
                                                            layers,
                                                        },
                                                    )
                                                },
                                            },
                                        }
                                    },
                                },
                            },
                        },
                    },
                },
            },
        },
    }
}


/// Every tile entry holds exactly `TILE_SCALARS` scalars.
pub open spec fn model_full(ts: Seq<(TileKey, Seq<u16>)>) -> bool {
    forall|i: int| 0 <= i < ts.len() ==> (#[trigger] ts[i]).1.len() == TILE_SCALARS
}

/// Every tile holds exactly `TILE_SCALARS` scalars.
pub open spec fn tiles_full(ts: Seq<(TileKey, Tile)>) -> bool {
    model_full(tiles_model(ts))
}

proof fn lemma_insert_full(ts: Seq<(TileKey, Seq<u16>)>, k: TileKey, v: Seq<u16>)
    requires
        model_full(ts),
        v.len() == TILE_SCALARS,
    ensures
        model_full(insert_tile(ts, k, v)),
{
    lemma_lower_bound(ts, k);
    let r = insert_tile(ts, k, v);
    assert forall|i: int| 0 <= i < r.len() implies (#[trigger] r[i]).1.len() == TILE_SCALARS by {
        let lb = lower_bound(ts, k) as int;
        if !(lb < ts.len() && ts[lb].0 == k) && i > lb {
            assert(r[i] == ts[i - 1]);
        }
    }
}

impl Layer {
    /// Tiles are full-sized and stored in strictly increasing key order.
    pub open spec fn wf(&self) -> bool {
        &&& sorted_keys(tiles_model(self.tiles@))
        &&& tiles_full(self.tiles@)
    }
}

impl Canvas {
    /// Every layer is well formed.
    pub open spec fn wf(&self) -> bool {
        forall|i: int| 0 <= i < self.layers@.len() ==> (#[trigger] self.layers@[i]).wf()
    }
}

/// `std::str::from_utf8`, owned: succeeds exactly on valid UTF-8 input and
/// then yields the characters that the bytes encode.
#[verifier::external_body]
fn utf8_to_string(bytes: &[u8]) -> (r: Option<String>)
    ensures
        r is Some <==> vstd::utf8::valid_utf8(bytes@),
        r matches Some(s) ==> s@ == vstd::utf8::decode_utf8(bytes@),
{
    match std::str::from_utf8(bytes) {
        Ok(s) => Some(s.to_owned()),
        Err(_) => None,
    }
}

fn rd_le(buf: &[u8], pos: usize, n: usize, context: &'static str) -> (r: Result<u64, DecodeError>)
    requires
        n <= 8,
        pos <= buf@.len(),
    ensures
        rd(buf@, pos as nat, n as nat) is None ==> r == Err::<u64, DecodeError>(eof(context)),
        rd(buf@, pos as nat, n as nat) is Some ==> r is Ok,
        r matches Ok(v) ==> rd(buf@, pos as nat, n as nat) == Some(v as nat) && (v as nat) < pow256(
            n as nat,
        ) && pos + n <= buf@.len(),
{
    if n > buf.len() - pos {
        Err(DecodeError::UnexpectedEof { context })
    } else {
        let v = read_le(buf, pos, n);
        proof {
            lemma_le_value_bound(buf@.subrange(pos as int, pos + n));
        }
        Ok(v)
    }
}

fn rd_pixels_exec(buf: &[u8], pos: usize) -> (r: Option<Vec<u16>>)
    requires
        pos <= buf@.len(),
    ensures
        match rd_pixels(buf@, pos as nat) {
            Some(px) => r matches Some(v) && v@ == px,
            None => r is None,
        },
        r is Some ==> pos + 2 * TILE_SCALARS <= buf@.len(),
{
    let len = buf.len();
    if 2 * TILE_SCALARS > len - pos {
        return None;
    }
    let mut v: Vec<u16> = Vec::new();
    let mut i: usize = 0;
    while i < TILE_SCALARS
        invariant
            i <= TILE_SCALARS,
            len == buf@.len(),
            pos + 2 * TILE_SCALARS <= len,
            v@.len() == i,
            forall|j: int|
                0 <= j < i ==> v@[j] == (buf@[pos + 2 * j] as nat + 256 * buf@[pos + 2 * j + 1] as nat) as u16,
        decreases TILE_SCALARS - i,
    {
        let lo = buf[pos + 2 * i] as u16;
        let hi = buf[pos + 2 * i + 1] as u16;
        v.push(lo + 256 * hi);
        i += 1;
    }
    assert(v@ =~= rd_pixels(buf@, pos as nat)->0);
    Some(v)
}

proof fn lemma_lower_bound(ts: Seq<(TileKey, Seq<u16>)>, k: TileKey)
    ensures
        lower_bound(ts, k) <= ts.len(),
        forall|j: int| 0 <= j < lower_bound(ts, k) ==> key_lt(#[trigger] ts[j].0, k),
        lower_bound(ts, k) < ts.len() ==> !key_lt(ts[lower_bound(ts, k) as int].0, k),
    decreases ts.len(),
{
    if ts.len() > 0 && key_lt(ts[0].0, k) {
        lemma_lower_bound(ts.drop_first(), k);
        assert forall|j: int| 0 <= j < lower_bound(ts, k) implies key_lt(#[trigger] ts[j].0, k) by {
            if j > 0 {
                assert(ts[j] == ts.drop_first()[j - 1]);
            }
        }
    }
}

proof fn lemma_lower_bound_exact(ts: Seq<(TileKey, Seq<u16>)>, k: TileKey, i: int)
    requires
        0 <= i <= ts.len(),
        forall|j: int| 0 <= j < i ==> key_lt(#[trigger] ts[j].0, k),
        i < ts.len() ==> !key_lt(ts[i].0, k),
    ensures
        lower_bound(ts, k) == i,
    decreases i,
{
    if i > 0 {
        assert(key_lt(ts[0].0, k));
        assert forall|j: int| 0 <= j < i - 1 implies key_lt(#[trigger] ts.drop_first()[j].0, k) by {
            assert(ts.drop_first()[j] == ts[j + 1]);
        }
        lemma_lower_bound_exact(ts.drop_first(), k, i - 1);
    }
}

proof fn lemma_insert_sorted(ts: Seq<(TileKey, Seq<u16>)>, k: TileKey, v: Seq<u16>)
    requires
        sorted_keys(ts),
    ensures
        sorted_keys(insert_tile(ts, k, v)),
{
    lemma_lower_bound(ts, k);
}

fn insert_tile_exec(tiles: &mut Vec<(TileKey, Tile)>, k: TileKey, t: Tile)
    requires
        sorted_keys(tiles_model(old(tiles)@)),
    ensures
        tiles_model(final(tiles)@) == insert_tile(tiles_model(old(tiles)@), k, t.pixels@),
{
    let ghost ts = tiles_model(tiles@);
    let n = tiles.len();
    if n == 0 || key_less(tiles[n - 1].0, k) {
        proof {
            assert forall|j: int| 0 <= j < n implies key_lt(#[trigger] ts[j].0, k) by {
                if j < n - 1 {
                    assert(key_lt(ts[j].0, ts[n - 1].0));
                }
            }
            lemma_lower_bound_exact(ts, k, n as int);
        }
        tiles.push((k, t));
        assert(tiles_model(tiles@) =~= insert_tile(ts, k, t.pixels@));
        return;
    }
    let mut i: usize = 0;
    while i < n && key_less(tiles[i].0, k)
        invariant
            n == tiles@.len(),
            ts == tiles_model(tiles@),
            i <= n,
            forall|j: int| 0 <= j < i ==> key_lt(#[trigger] ts[j].0, k),
        decreases n - i,
    {
        i += 1;
    }
    proof {
        lemma_lower_bound_exact(ts, k, i as int);
    }
    if i < n && tiles[i].0 == k {
        tiles.set(i, (k, t));
    } else {
        tiles.insert(i, (k, t));
    }
    assert(tiles_model(tiles@) =~= insert_tile(ts, k, t.pixels@));
}

/// How an executable tile-decoding result matches its specification.
pub open spec fn tiles_result_ok(
    r: Result<(Vec<(TileKey, Tile)>, usize), DecodeError>,
    s: Result<(Seq<(TileKey, Seq<u16>)>, nat), DecodeError>,
) -> bool {
    match s {
        Ok((ts, end)) => r matches Ok((v, e)) && tiles_model(v@) == ts && e as nat == end
            && tiles_full(v@),
        Err(err) => r == Err::<(Vec<(TileKey, Tile)>, usize), DecodeError>(err),
    }
}

fn decode_tiles(buf: &[u8], pos: usize, count: u64) -> (r: Result<(Vec<(TileKey, Tile)>, usize), DecodeError>)
    requires
        pos <= buf@.len(),
    ensures
        tiles_result_ok(r, dec_tiles(buf@, pos as nat, count as nat, Seq::empty())),
        r matches Ok((v, e)) ==> e <= buf@.len() && sorted_keys(tiles_model(v@)),
{
    let mut tiles: Vec<(TileKey, Tile)> = Vec::new();
    let mut p = pos;
    let mut i: u64 = 0;
    let len = buf.len();
    assert(tiles_model(tiles@) =~= Seq::<(TileKey, Seq<u16>)>::empty());
    while i < count
        invariant
            i <= count,
            len == buf@.len(),
            p <= len,
            sorted_keys(tiles_model(tiles@)),
            tiles_full(tiles@),
            dec_tiles(buf@, pos as nat, count as nat, Seq::empty()) == dec_tiles(
                buf@,
                p as nat,
                (count - i) as nat,
                tiles_model(tiles@),
            ),
        decreases count - i,
    {
        let tx = match rd_le(buf, p, 4, "tile.tx") {
            Ok(v) => v,
            Err(e) => return Err(e),
        };
        let ty = match rd_le(buf, p + 4, 4, "tile.ty") {
            Ok(v) => v,
            Err(e) => return Err(e),
        };
        let px = match rd_pixels_exec(buf, p + 8) {
            Some(v) => v,
            None => return Err(DecodeError::UnexpectedEof { context: "tile pixel" }),
        };
        proof {
            lemma_pow256_values();
        }
        let key = TileKey { tx: tx as u32, ty: ty as u32 };
        proof {
            let acc = tiles_model(tiles@);
            assert(rd(buf@, p as nat, 4) == Some(tx as nat));
            assert(rd(buf@, p as nat + 4, 4) == Some(ty as nat));
            assert(rd_pixels(buf@, p as nat + 8) == Some(px@));
            assert(count - i > 0);
            assert(dec_tiles(buf@, p as nat, (count - i) as nat, acc) == dec_tiles(
                buf@,
                (p + 8 + 2 * TILE_SCALARS) as nat,
                (count - i - 1) as nat,
                insert_tile(acc, key, px@),
            ));
            lemma_insert_sorted(tiles_model(tiles@), key, px@);
            lemma_insert_full(tiles_model(tiles@), key, px@);
        }
        insert_tile_exec(&mut tiles, key, Tile { pixels: px });
        p = p + 8 + 2 * TILE_SCALARS;
        i += 1;
    }
    Ok((tiles, p))
}

/// How an executable layer-decoding result matches its specification.
pub open spec fn layer_result_ok(
    r: Result<(Layer, usize), DecodeError>,
    s: Result<(LayerModel, nat), DecodeError>,
) -> bool {
    match s {
        Ok((lm, end)) => r matches Ok((l, e)) && l.model() == lm && e as nat == end && l.wf(),
        Err(err) => r == Err::<(Layer, usize), DecodeError>(err),
    }
}

fn decode_layer(buf: &[u8], pos: usize) -> (r: Result<(Layer, usize), DecodeError>)
    requires
        pos <= buf@.len(),
    ensures
        layer_result_ok(r, dec_layer(buf@, pos as nat)),
        r matches Ok((l, e)) ==> e <= buf@.len(),
{
    let len = buf.len();
    let name_len = match rd_le(buf, pos, 4, "layer name length") {
        Ok(v) => v,
        Err(e) => return Err(e),
    };
    let p0 = pos + 4;
    if name_len > (len - p0) as u64 {
        return Err(DecodeError::UnexpectedEof { context: "layer name" });
    }
    let p1 = p0 + name_len as usize;
    let nb = vstd::slice::slice_subrange(buf, p0, p1);
    let name = match utf8_to_string(nb) {
        Some(s) => s,
        None => return Err(DecodeError::InvalidUtf8 { context: "layer name" }),
    };
    let vis = match rd_le(buf, p1, 1, "layer visible") {
        Ok(v) => v,
        Err(e) => return Err(e),
    };
    let op = match rd_le(buf, p1 + 1, 8, "layer opacity") {
        Ok(v) => v,
        Err(e) => return Err(e),
    };
    let bl = match rd_le(buf, p1 + 9, 4, "layer blend") {
        Ok(v) => v,
        Err(e) => return Err(e),
    };
    proof {
        lemma_pow256_values();
    }
    let blend = match BlendMode::from_u32(bl as u32) {
        Ok(b) => b,
        Err(e) => return Err(e),
    };
    let tc = match rd_le(buf, p1 + 13, 4, "tile_count") {
        Ok(v) => v,
        Err(e) => return Err(e),
    };
    let (tiles, end) = match decode_tiles(buf, p1 + 17, tc) {
        Ok(x) => x,
        Err(e) => return Err(e),
    };
    let layer = Layer { name, visible: vis != 0, opacity: op, blend, tiles };
    proof {
        assert(layer.model() =~= dec_layer(buf@, pos as nat)->Ok_0.0);
    }
    Ok((layer, end))
}

/// What an executable decoding result says about its specification.
pub open spec fn decode_result_ok(r: Result<Canvas, DecodeError>, s: Result<CanvasModel, DecodeError>) -> bool {
    match s {
        Ok(m) => r matches Ok(c) && c.model() == m && c.wf(),
        Err(e) => r == Err::<Canvas, DecodeError>(e),
    }
}

/// Parse a draft-v1 `.ptype` byte stream back into a canvas. Every
/// malformed input yields the error of `spec_decode`; nothing panics.
pub fn decode(bytes: &[u8]) -> (r: Result<Canvas, DecodeError>)
    ensures
        decode_result_ok(r, spec_decode(bytes@)),
{
    let len = bytes.len();
    if len < 8 {
        return Err(DecodeError::UnexpectedEof { context: "magic" });
    }
    let m = magic();
    let mut i: usize = 0;
    while i < 8
        invariant
            i <= 8,
            8 <= len,
            len == bytes@.len(),
            m@ == spec_magic(),
            forall|j: int| 0 <= j < i ==> bytes@[j] == spec_magic()[j],
        decreases 8 - i,
    {
        if bytes[i] != m[i] {
            assert(bytes@.subrange(0, 8)[i as int] != spec_magic()[i as int]);
            return Err(DecodeError::BadMagic);
        }
        i += 1;
    }
    assert(bytes@.subrange(0, 8) =~= spec_magic());
    let version = match rd_le(bytes, 8, 2, "version") {
        Ok(v) => v,
        Err(e) => return Err(e),
    };
    proof {
        lemma_pow256_values();
    }
    if version != 1 {
        return Err(DecodeError::UnsupportedVersion(version as u16));
    }
    let flags = match rd_le(bytes, 10, 2, "flags") {
        Ok(v) => v,
        Err(e) => return Err(e),
    };
    if flags != 0 {
        return Err(DecodeError::UnsupportedFlags(flags as u16));
    }
    let format = match rd_le(bytes, 12, 4, "format") {
        Ok(v) => v,
        Err(e) => return Err(e),
    };
    if format != 0 {
        return Err(DecodeError::UnsupportedFormat(format as u32));
    }
    decode_body(bytes)
}

fn decode_body(bytes: &[u8]) -> (r: Result<Canvas, DecodeError>)
    requires
        16 <= bytes@.len(),
    ensures
        decode_result_ok(r, spec_decode_body(bytes@)),
{
    proof {
        lemma_pow256_values();
    }
    let len = bytes.len();
    let w = match rd_le(bytes, 16, 4, "width") {
        Ok(v) => v,
        Err(e) => return Err(e),
    };
    let h = match rd_le(bytes, 20, 4, "height") {
        Ok(v) => v,
        Err(e) => return Err(e),
    };
    let bg_r = match rd_le(bytes, 24, 4, "bg.r") {
        Ok(v) => v,
        Err(e) => return Err(e),
    };
    let bg_g = match rd_le(bytes, 28, 4, "bg.g") {
        Ok(v) => v,
        Err(e) => return Err(e),
    };
    let bg_b = match rd_le(bytes, 32, 4, "bg.b") {
        Ok(v) => v,
        Err(e) => return Err(e),
    };
    let bg_a = match rd_le(bytes, 36, 4, "bg.a") {
        Ok(v) => v,
        Err(e) => return Err(e),
    };
    let ts = match rd_le(bytes, 40, 4, "tile_size") {
        Ok(v) => v,
        Err(e) => return Err(e),
    };
    let tc = match rd_le(bytes, 44, 4, "tile_channels") {
        Ok(v) => v,
        Err(e) => return Err(e),
    };
    if ts != 64 || tc != 4 {
        return Err(
            DecodeError::TileGeometryMismatch {
                got: (ts as u32, tc as u32),
                expected: (TILE_SIZE, TILE_CHANNELS),
            },
        );
    }
    let lc = match rd_le(bytes, 48, 4, "layer_count") {
        Ok(v) => v,
        Err(e) => return Err(e),
    };
    let mut layers: Vec<Layer> = Vec::new();
    let mut p: usize = 52;
    let mut k: u64 = 0;
    assert(layers_model(layers@) =~= Seq::<LayerModel>::empty());
    while k < lc
        invariant
            k <= lc,
            len == bytes@.len(),
            p <= len,
            forall|j: int| 0 <= j < layers@.len() ==> (#[trigger] layers@[j]).wf(),
            dec_layers(bytes@, 52, lc as nat, Seq::empty()) matches Err(e) ==> spec_decode_body(
                bytes@,
            ) == Err::<CanvasModel, DecodeError>(e),
            dec_layers(bytes@, 52, lc as nat, Seq::empty()) == dec_layers(
                bytes@,
                p as nat,
                (lc - k) as nat,
                layers_model(layers@),
            ),
        decreases lc - k,
    {
        let (layer, end) = match decode_layer(bytes, p) {
            Ok(x) => x,
            Err(e) => {
                assert(dec_layers(bytes@, p as nat, (lc - k) as nat, layers_model(layers@)) == Err::<
                    (Seq<LayerModel>, nat),
                    DecodeError,
                >(e));
                return Err(e);
            },
        };
        proof {
            let acc = layers_model(layers@);
            assert(dec_layers(bytes@, p as nat, (lc - k) as nat, acc) == dec_layers(
                bytes@,
                end as nat,
                (lc - k - 1) as nat,
                acc.push(layer.model()),
            ));
        }
        let ghost before = layers@;
        let ghost lm = layer.model();
        layers.push(layer);
        assert(layers_model(layers@) =~= layers_model(before).push(lm));
        p = end;
        k += 1;
    }
    if p != len {
        return Err(DecodeError::TrailingBytes { extra: len - p });
    }
    let background = [bg_r as u32, bg_g as u32, bg_b as u32, bg_a as u32];
    let c = Canvas { width: w as u32, height: h as u32, format: FORMAT_RGBA16F, background, layers };
    proof {
        assert(c.model() =~= spec_decode_body(bytes@)->Ok_0);
    }
    Ok(c)
}

//==============================================================================
// Round trip
//==============================================================================

/// `x` occurs in `s` at position `pos`.
pub open spec fn starts_at(s: Seq<u8>, pos: nat, x: Seq<u8>) -> bool {
    pos + x.len() <= s.len() && s.subrange(pos as int, pos + x.len() as int) == x
}

proof fn lemma_starts_split(s: Seq<u8>, pos: nat, a: Seq<u8>, b: Seq<u8>)
    requires
        starts_at(s, pos, a + b),
    ensures
        starts_at(s, pos, a),
        starts_at(s, pos + a.len(), b),
{
    let p = pos as int;
    let la = a.len() as int;
    let lb = b.len() as int;
    let w = s.subrange(p, p + la + lb);
    assert(w == a + b);
    assert(s.subrange(p, p + la) =~= w.subrange(0, la));
    assert(w.subrange(0, la) =~= a);
    assert(s.subrange(p + la, p + la + lb) =~= w.subrange(la, la + lb));
    assert(w.subrange(la, la + lb) =~= b);
}

proof fn lemma_rd_le(s: Seq<u8>, pos: nat, x: nat, n: nat)
    requires
        starts_at(s, pos, le_bytes(x, n)),
        x < pow256(n),
    ensures
        rd(s, pos, n) == Some(x),
{
    lemma_le_round_trip(x, n);
}

proof fn lemma_rd_pixels(s: Seq<u8>, pos: nat, px: Seq<u16>)
    requires
        starts_at(s, pos, u16s_bytes(px)),
        px.len() == TILE_SCALARS,
    ensures
        rd_pixels(s, pos) == Some(px),
{
    let b = u16s_bytes(px);
    let w = s.subrange(pos as int, pos as int + b.len() as int);
    assert forall|i: int| 0 <= i < TILE_SCALARS implies (s[pos + 2 * i] as nat + 256 * s[pos + 2 * i
        + 1] as nat) as u16 == px[i] by {
        assert(w[2 * i] == s[pos + 2 * i]);
        assert(w[2 * i + 1] == s[pos + 2 * i + 1]);
        assert((2 * i) % 2 == 0 && (2 * i) / 2 == i);
        assert((2 * i + 1) % 2 == 1 && (2 * i + 1) / 2 == i);
        let v = px[i];
        assert(v % 256 + 256 * (v / 256) == v);
    }
    assert(rd_pixels(s, pos)->0 =~= px);
}

proof fn lemma_concat_first(parts: Seq<Seq<u8>>)
    requires
        parts.len() > 0,
    ensures
        concat(parts) == parts[0] + concat(parts.drop_first()),
    decreases parts.len(),
{
    if parts.len() == 1 {
        assert(parts.drop_last() =~= Seq::<Seq<u8>>::empty());
        assert(parts.drop_first() =~= Seq::<Seq<u8>>::empty());
        assert(concat(parts.drop_last()) == concat(Seq::<Seq<u8>>::empty()));
        assert(concat(parts) =~= Seq::<u8>::empty() + parts[0]);
        assert(concat(parts) =~= parts[0]);
        assert(parts[0] + concat(parts.drop_first()) =~= parts[0]);
    } else {
        lemma_concat_first(parts.drop_last());
        assert(parts.drop_last().drop_first() =~= parts.drop_first().drop_last());
        assert(parts.drop_first().last() == parts.last());
        assert(concat(parts) =~= parts[0] + concat(parts.drop_first()));
    }
}

proof fn lemma_dec_tiles(
    s: Seq<u8>,
    pos: nat,
    ts: Seq<(TileKey, Seq<u16>)>,
    acc: Seq<(TileKey, Seq<u16>)>,
)
    requires
        starts_at(s, pos, concat(tile_parts(ts))),
        model_full(ts),
        sorted_keys(acc + ts),
    ensures
        dec_tiles(s, pos, ts.len(), acc) == Ok::<(Seq<(TileKey, Seq<u16>)>, nat), DecodeError>(
            (acc + ts, pos + concat(tile_parts(ts)).len()),
        ),
    decreases ts.len(),
{
    if ts.len() == 0 {
        assert(acc + ts =~= acc);
    } else {
        let parts = tile_parts(ts);
        let rest = ts.drop_first();
        lemma_concat_first(parts);
        assert(parts.drop_first() =~= tile_parts(rest));
        let e = ts[0];
        let tx = e.0.tx as nat;
        let ty = e.0.ty as nat;
        assert(e.1.len() == TILE_SCALARS);
        lemma_le_bytes_len(tx, 4);
        lemma_le_bytes_len(ty, 4);
        lemma_starts_split(s, pos, tile_bytes(e), concat(tile_parts(rest)));
        lemma_starts_split(s, pos, le_bytes(tx, 4) + le_bytes(ty, 4), u16s_bytes(e.1));
        lemma_starts_split(s, pos, le_bytes(tx, 4), le_bytes(ty, 4));
        lemma_pow256_values();
        lemma_rd_le(s, pos, tx, 4);
        lemma_rd_le(s, pos + 4, ty, 4);
        lemma_rd_pixels(s, pos + 8, e.1);
        assert forall|j: int| 0 <= j < acc.len() implies key_lt(#[trigger] acc[j].0, e.0) by {
            assert((acc + ts)[j] == acc[j]);
            assert((acc + ts)[acc.len() as int] == e);
        }
        lemma_lower_bound_exact(acc, e.0, acc.len() as int);
        assert(TileKey { tx: tx as u32, ty: ty as u32 } == e.0);
        assert(insert_tile(acc, e.0, e.1) =~= acc.push(e));
        assert(acc.push(e) + rest =~= acc + ts);
        assert(model_full(rest)) by {
            assert forall|i: int| 0 <= i < rest.len() implies (#[trigger] rest[i]).1.len()
                == TILE_SCALARS by {
                assert(rest[i] == ts[i + 1]);
            }
        }
        lemma_dec_tiles(s, (pos + 8 + 2 * TILE_SCALARS) as nat, rest, acc.push(e));
    }
}

/// A layer model that decoding reproduces: its tiles are full and in
/// strictly increasing key order, and its name length and tile count fit
/// their 32-bit fields.
pub open spec fn layer_encodable(l: LayerModel) -> bool {
    &&& sorted_keys(l.tiles)
    &&& model_full(l.tiles)
    &&& vstd::utf8::encode_utf8(l.name).len() < 0x1_0000_0000
    &&& l.tiles.len() < 0x1_0000_0000
}

proof fn lemma_dec_layer(s: Seq<u8>, pos: nat, l: LayerModel)
    requires
        starts_at(s, pos, layer_bytes(l)),
        layer_encodable(l),
    ensures
        dec_layer(s, pos) == Ok::<(LayerModel, nat), DecodeError>((l, pos + layer_bytes(l).len())),
{
    let nb = vstd::utf8::encode_utf8(l.name);
    let vb: u8 = if l.visible { 1u8 } else { 0u8 };
    let a = le_bytes((nb.len() as u32) as nat, 4);
    let v = seq![vb];
    let o = le_bytes(l.opacity as nat, 8);
    let b = le_bytes(blend_code(l.blend) as nat, 4);
    let c = le_bytes((l.tiles.len() as u32) as nat, 4);
    let t = concat(tile_parts(l.tiles));
    assert(layer_bytes(l) == a + nb + v + o + b + c + t);
    lemma_le_bytes_len((nb.len() as u32) as nat, 4);
    lemma_le_bytes_len(l.opacity as nat, 8);
    lemma_le_bytes_len(blend_code(l.blend) as nat, 4);
    lemma_le_bytes_len((l.tiles.len() as u32) as nat, 4);
    lemma_starts_split(s, pos, a + nb + v + o + b + c, t);
    lemma_starts_split(s, pos, a + nb + v + o + b, c);
    lemma_starts_split(s, pos, a + nb + v + o, b);
    lemma_starts_split(s, pos, a + nb + v, o);
    lemma_starts_split(s, pos, a + nb, v);
    lemma_starts_split(s, pos, a, nb);
    lemma_pow256_values();
    lemma_rd_le(s, pos, nb.len(), 4);
    let p1 = pos + 4 + nb.len();
    assert(s.subrange(pos + 4 as int, p1 as int) == nb);
    vstd::utf8::encode_utf8_valid_utf8(l.name);
    vstd::utf8::encode_utf8_decode_utf8(l.name);
    assert(le_bytes(vb as nat, 1) =~= v) by {
        reveal_with_fuel(le_bytes, 2);
    }
    lemma_rd_le(s, p1, vb as nat, 1);
    lemma_rd_le(s, p1 + 1, l.opacity as nat, 8);
    lemma_rd_le(s, p1 + 9, blend_code(l.blend) as nat, 4);
    lemma_rd_le(s, p1 + 13, l.tiles.len(), 4);
    assert(Seq::<(TileKey, Seq<u16>)>::empty() + l.tiles =~= l.tiles);
    lemma_dec_tiles(s, p1 + 17, l.tiles, Seq::empty());
    let d = dec_layer(s, pos)->Ok_0.0;
    assert(d.blend == l.blend);
    assert(d =~= l);
}

proof fn lemma_dec_layers(s: Seq<u8>, pos: nat, ls: Seq<LayerModel>, acc: Seq<LayerModel>)
    requires
        starts_at(s, pos, concat(layer_parts(ls))),
        forall|i: int| 0 <= i < ls.len() ==> layer_encodable(#[trigger] ls[i]),
    ensures
        dec_layers(s, pos, ls.len(), acc) == Ok::<(Seq<LayerModel>, nat), DecodeError>(
            (acc + ls, pos + concat(layer_parts(ls)).len()),
        ),
    decreases ls.len(),
{
    if ls.len() == 0 {
        assert(acc + ls =~= acc);
    } else {
        let parts = layer_parts(ls);
        let rest = ls.drop_first();
        lemma_concat_first(parts);
        assert(parts.drop_first() =~= layer_parts(rest));
        lemma_starts_split(s, pos, layer_bytes(ls[0]), concat(layer_parts(rest)));
        lemma_dec_layer(s, pos, ls[0]);
        assert(acc.push(ls[0]) + rest =~= acc + ls);
        assert forall|i: int| 0 <= i < rest.len() implies layer_encodable(#[trigger] rest[i]) by {
            assert(rest[i] == ls[i + 1]);
        }
        lemma_dec_layers(s, pos + layer_bytes(ls[0]).len(), rest, acc.push(ls[0]));
    }
}

/// A canvas model that decoding reproduces: draft-v1 format, four
/// background channels, a layer count that fits its 32-bit field, and
/// reproducible layers.
pub open spec fn canvas_encodable(c: CanvasModel) -> bool {
    &&& c.format == FORMAT_RGBA16F
    &&& c.background.len() == 4
    &&& c.layers.len() < 0x1_0000_0000
    &&& forall|i: int| 0 <= i < c.layers.len() ==> layer_encodable(#[trigger] c.layers[i])
}

proof fn lemma_header_fields(s: Seq<u8>, c: CanvasModel)
    requires
        starts_at(s, 0, header_bytes(c)),
        c.layers.len() < 0x1_0000_0000,
    ensures
        header_bytes(c).len() == 52,
        s.subrange(0, 8) == spec_magic(),
        rd(s, 8, 2) == Some(1nat),
        rd(s, 10, 2) == Some(0nat),
        rd(s, 12, 4) == Some(c.format as nat),
        rd(s, 16, 4) == Some(c.width as nat),
        rd(s, 20, 4) == Some(c.height as nat),
        rd(s, 24, 4) == Some(c.background[0] as nat),
        rd(s, 28, 4) == Some(c.background[1] as nat),
        rd(s, 32, 4) == Some(c.background[2] as nat),
        rd(s, 36, 4) == Some(c.background[3] as nat),
        rd(s, 40, 4) == Some(64nat),
        rd(s, 44, 4) == Some(4nat),
        rd(s, 48, 4) == Some(c.layers.len()),
{
    let f1 = le_bytes(1, 2);
    let f2 = le_bytes(0, 2);
    let f3 = le_bytes(c.format as nat, 4);
    let f4 = le_bytes(c.width as nat, 4);
    let f5 = le_bytes(c.height as nat, 4);
    let f6 = le_bytes(c.background[0] as nat, 4);
    let f7 = le_bytes(c.background[1] as nat, 4);
    let f8 = le_bytes(c.background[2] as nat, 4);
    let f9 = le_bytes(c.background[3] as nat, 4);
    let f10 = le_bytes(64, 4);
    let f11 = le_bytes(4, 4);
    let f12 = le_bytes((c.layers.len() as u32) as nat, 4);
    let m = spec_magic();
    lemma_le_bytes_len(1, 2);
    lemma_le_bytes_len(0, 2);
    lemma_le_bytes_len(c.format as nat, 4);
    lemma_le_bytes_len(c.width as nat, 4);
    lemma_le_bytes_len(c.height as nat, 4);
    lemma_le_bytes_len(c.background[0] as nat, 4);
    lemma_le_bytes_len(c.background[1] as nat, 4);
    lemma_le_bytes_len(c.background[2] as nat, 4);
    lemma_le_bytes_len(c.background[3] as nat, 4);
    lemma_le_bytes_len(64, 4);
    lemma_le_bytes_len(4, 4);
    lemma_le_bytes_len((c.layers.len() as u32) as nat, 4);
    lemma_starts_split(s, 0, m + f1 + f2 + f3 + f4 + f5 + f6 + f7 + f8 + f9 + f10 + f11, f12);
    lemma_starts_split(s, 0, m + f1 + f2 + f3 + f4 + f5 + f6 + f7 + f8 + f9 + f10, f11);
    lemma_starts_split(s, 0, m + f1 + f2 + f3 + f4 + f5 + f6 + f7 + f8 + f9, f10);
    lemma_starts_split(s, 0, m + f1 + f2 + f3 + f4 + f5 + f6 + f7 + f8, f9);
    lemma_starts_split(s, 0, m + f1 + f2 + f3 + f4 + f5 + f6 + f7, f8);
    lemma_starts_split(s, 0, m + f1 + f2 + f3 + f4 + f5 + f6, f7);
    lemma_starts_split(s, 0, m + f1 + f2 + f3 + f4 + f5, f6);
    lemma_starts_split(s, 0, m + f1 + f2 + f3 + f4, f5);
    lemma_starts_split(s, 0, m + f1 + f2 + f3, f4);
    lemma_starts_split(s, 0, m + f1 + f2, f3);
    lemma_starts_split(s, 0, m + f1, f2);
    lemma_starts_split(s, 0, m, f1);
    lemma_pow256_values();
    lemma_rd_le(s, 8, 1, 2);
    lemma_rd_le(s, 10, 0, 2);
    lemma_rd_le(s, 12, c.format as nat, 4);
    lemma_rd_le(s, 16, c.width as nat, 4);
    lemma_rd_le(s, 20, c.height as nat, 4);
    lemma_rd_le(s, 24, c.background[0] as nat, 4);
    lemma_rd_le(s, 28, c.background[1] as nat, 4);
    lemma_rd_le(s, 32, c.background[2] as nat, 4);
    lemma_rd_le(s, 36, c.background[3] as nat, 4);
    lemma_rd_le(s, 40, 64, 4);
    lemma_rd_le(s, 44, 4, 4);
    lemma_rd_le(s, 48, c.layers.len(), 4);
}

#[verifier::rlimit(100)]
#[verifier::spinoff_prover]
proof fn lemma_decode_canvas_bytes(c: CanvasModel)
    requires
        canvas_encodable(c),
    ensures
        spec_decode(canvas_bytes(c)) == Ok::<CanvasModel, DecodeError>(c),
{
    let s = canvas_bytes(c);
    let body = concat(layer_parts(c.layers));
    assert(s.subrange(0, s.len() as int) =~= s);
    lemma_starts_split(s, 0, header_bytes(c), body);
    lemma_header_fields(s, c);
    assert(Seq::<LayerModel>::empty() + c.layers =~= c.layers);
    lemma_dec_layers(s, 52, c.layers, Seq::empty());
    assert(spec_decode(s) == spec_decode_body(s));
    let d = CanvasModel {
        width: c.width,
        height: c.height,
        format: 0,
        background: seq![c.background[0], c.background[1], c.background[2], c.background[3]],
        layers: c.layers,
    };
    assert(spec_decode_body(s) == Ok::<CanvasModel, DecodeError>(d));
    assert(d.background =~= c.background);
    assert(d =~= c);
}

impl Layer {
    /// The UTF-8 name and the tile count fit their 32-bit length fields.
    pub open spec fn fits(&self) -> bool {
        &&& vstd::utf8::encode_utf8(self.name@).len() < 0x1_0000_0000
        &&& self.tiles@.len() < 0x1_0000_0000
    }
}

impl Canvas {
    /// The layer count and every layer's lengths fit their 32-bit fields.
    pub open spec fn fits(&self) -> bool {
        &&& self.layers@.len() < 0x1_0000_0000
        &&& forall|i: int| 0 <= i < self.layers@.len() ==> (#[trigger] self.layers@[i]).fits()
    }
}

proof fn lemma_canvas_encodable(c: Canvas)
    requires
        c.wf(),
        c.fits(),
        c.format == FORMAT_RGBA16F,
    ensures
        canvas_encodable(c.model()),
{
    let m = c.model();
    assert forall|i: int| 0 <= i < m.layers.len() implies layer_encodable(#[trigger] m.layers[i]) by {
        assert(c.layers@[i].wf());
        assert(c.layers@[i].fits());
        assert(m.layers[i] == c.layers@[i].model());
    }
}

/// Decoding inverts encoding: for a well-formed draft-v1 canvas whose
/// lengths fit their 32-bit fields, the bytes `encode` writes decode to a
/// canvas with the same content, so `decode(&encode(&c))` is `Ok` of a
/// canvas equal to `c`.
pub proof fn law_decode_inverts_encode(c: Canvas)
    requires
        c.wf(),
        c.fits(),
        c.format == FORMAT_RGBA16F,
    ensures
        spec_decode(canvas_bytes(c.model())) == Ok::<CanvasModel, DecodeError>(c.model()),
{
    lemma_canvas_encodable(c);
    lemma_decode_canvas_bytes(c.model());
}

/// Re-encoding a decoded canvas is byte-identical: for such a canvas, the
/// bytes of the canvas decoded from `encode(&c)` are those of `encode(&c)`.
pub proof fn law_reencode_is_byte_identical(c: Canvas)
    requires
        c.wf(),
        c.fits(),
        c.format == FORMAT_RGBA16F,
    ensures
        spec_decode(canvas_bytes(c.model())) is Ok,
        canvas_bytes(spec_decode(canvas_bytes(c.model()))->Ok_0) == canvas_bytes(c.model()),
{
    law_decode_inverts_encode(c);
}

/// The four little-endian bytes of `x`, spelled out by repeated division.
proof fn lemma_le4(x: nat)
    ensures
        le_bytes(x, 4).len() == 4,
        le_bytes(x, 4)[0] == (x % 256) as u8,
        le_bytes(x, 4)[1] == ((x / 256) % 256) as u8,
        le_bytes(x, 4)[2] == ((x / 256 / 256) % 256) as u8,
        le_bytes(x, 4)[3] == ((x / 256 / 256 / 256) % 256) as u8,
{
    let x1 = x / 256;
    let x2 = x1 / 256;
    let x3 = x2 / 256;
    assert(le_bytes(x3 / 256, 0) =~= Seq::<u8>::empty());
    assert(le_bytes(x3, 1) =~= seq![(x3 % 256) as u8]);
    assert(le_bytes(x2, 2) =~= seq![(x2 % 256) as u8, (x3 % 256) as u8]);
    assert(le_bytes(x1, 3) =~= seq![(x1 % 256) as u8, (x2 % 256) as u8, (x3 % 256) as u8]);
    assert(le_bytes(x, 4) =~= seq![(x % 256) as u8, (x1 % 256) as u8, (x2 % 256) as u8, (x3 % 256) as u8]);
}

proof fn lemma_header_len(c: CanvasModel)
    ensures
        header_bytes(c).len() == 52,
{
    lemma_le_bytes_len(1, 2);
    lemma_le_bytes_len(0, 2);
    lemma_le_bytes_len(c.format as nat, 4);
    lemma_le_bytes_len(c.width as nat, 4);
    lemma_le_bytes_len(c.height as nat, 4);
    lemma_le_bytes_len(c.background[0] as nat, 4);
    lemma_le_bytes_len(c.background[1] as nat, 4);
    lemma_le_bytes_len(c.background[2] as nat, 4);
    lemma_le_bytes_len(c.background[3] as nat, 4);
    lemma_le_bytes_len(64, 4);
    lemma_le_bytes_len(4, 4);
    lemma_le_bytes_len((c.layers.len() as u32) as nat, 4);
}

/// The header's geometry in the file: the width is the four bytes at
/// offset 16 and the height the four at offset 20, least significant
/// first, and the layer count the four at offset 48.
pub proof fn law_header_width_then_height(c: CanvasModel)
    ensures
        ({
            let b = canvas_bytes(c);
            let n = (c.layers.len() as u32) as nat;
            &&& b.len() >= 52
            &&& b[16] == c.width % 256 && b[17] == (c.width / 256) % 256
            &&& b[18] == (c.width / 256 / 256) % 256 && b[19] == (c.width / 256 / 256 / 256) % 256
            &&& b[20] == c.height % 256 && b[21] == (c.height / 256) % 256
            &&& b[22] == (c.height / 256 / 256) % 256 && b[23] == (c.height / 256 / 256 / 256) % 256
            &&& b[48] == n % 256 && b[49] == (n / 256) % 256
            &&& b[50] == (n / 256 / 256) % 256 && b[51] == (n / 256 / 256 / 256) % 256
        }),
{
    lemma_header_len(c);
    lemma_le4(c.width as nat);
    lemma_le4(c.height as nat);
    let n = (c.layers.len() as u32) as nat;
    lemma_le4(n);
    lemma_le_bytes_len(1, 2);
    lemma_le_bytes_len(0, 2);
    lemma_le_bytes_len(c.format as nat, 4);
    let a = spec_magic() + le_bytes(1, 2) + le_bytes(0, 2) + le_bytes(c.format as nat, 4);
    assert(a.len() == 16);
    let wb = le_bytes(c.width as nat, 4);
    let hb = le_bytes(c.height as nat, 4);
    let nb = le_bytes(n, 4);
    let h = header_bytes(c);
    let mid = h.subrange(24, 48);
    assert(h =~= a + wb + hb + mid + nb);
    let b = canvas_bytes(c);
    assert(b == h + concat(layer_parts(c.layers)));
    assert forall|j: int| 0 <= j < 4 implies #[trigger] b[16 + j] == wb[j] && b[20 + j] == hb[j] && b[48 + j]
        == nb[j] by {
        assert(b[16 + j] == h[16 + j]);
        assert(b[20 + j] == h[20 + j]);
        assert(b[48 + j] == h[48 + j]);
    }
    assert(b[16] == wb[0] && b[17] == wb[1] && b[18] == wb[2] && b[19] == wb[3]);
    assert(b[20] == hb[0] && b[21] == hb[1] && b[22] == hb[2] && b[23] == hb[3]);
    assert(b[48] == nb[0] && b[49] == nb[1] && b[50] == nb[2] && b[51] == nb[3]);
}

/// A tile record is its column and row, four bytes each, then every
/// half-float scalar in order as two bytes, low byte first.
pub proof fn law_tile_record_layout(e: (TileKey, Seq<u16>))
    ensures
        tile_bytes(e).len() == 8 + 2 * e.1.len(),
        tile_bytes(e)[0] == e.0.tx % 256 && tile_bytes(e)[4] == e.0.ty % 256,
        forall|k: int|
            0 <= k < e.1.len() ==> tile_bytes(e)[8 + 2 * k] == e.1[k] % 256 && #[trigger] tile_bytes(e)[9 + 2 * k]
                == e.1[k] / 256,
{
    lemma_le4(e.0.tx as nat);
    lemma_le4(e.0.ty as nat);
    let px = u16s_bytes(e.1);
    let t = tile_bytes(e);
    assert(t == le_bytes(e.0.tx as nat, 4) + le_bytes(e.0.ty as nat, 4) + px);
    assert forall|k: int| 0 <= k < e.1.len() implies t[8 + 2 * k] == e.1[k] % 256 && #[trigger] t[9 + 2 * k]
        == e.1[k] / 256 by {
        assert(t[8 + 2 * k] == px[2 * k]);
        assert(t[9 + 2 * k] == px[2 * k + 1]);
        assert((2 * k) / 2 == k && (2 * k) % 2 == 0);
        assert((2 * k + 1) / 2 == k && (2 * k + 1) % 2 == 1);
    }
}

/// In a layer record, the first tile record follows the 21 bytes of fields
/// and the name.
proof fn lemma_first_tile_in_layer(l: LayerModel)
    requires
        l.tiles.len() > 0,
    ensures
        ({
            let n = vstd::utf8::encode_utf8(l.name).len() as int;
            &&& layer_bytes(l).len() >= 29 + n
            &&& forall|j: int| 0 <= j < 8 ==> #[trigger] layer_bytes(l)[21 + n + j] == tile_bytes(l.tiles[0])[j]
        }),
{
    let nb = vstd::utf8::encode_utf8(l.name);
    let tp = tile_parts(l.tiles);
    lemma_concat_first(tp);
    lemma_le_bytes_len((nb.len() as u32) as nat, 4);
    lemma_le_bytes_len(l.opacity as nat, 8);
    lemma_le_bytes_len(blend_code(l.blend) as nat, 4);
    lemma_le_bytes_len((l.tiles.len() as u32) as nat, 4);
    let pre = le_bytes((nb.len() as u32) as nat, 4) + nb + seq![if l.visible { 1u8 } else { 0u8 }]
        + le_bytes(l.opacity as nat, 8) + le_bytes(blend_code(l.blend) as nat, 4) + le_bytes(
        (l.tiles.len() as u32) as nat,
        4,
    );
    assert(pre.len() == 21 + nb.len());
    let tb = tile_bytes(l.tiles[0]);
    lemma_le_bytes_len(l.tiles[0].0.tx as nat, 4);
    lemma_le_bytes_len(l.tiles[0].0.ty as nat, 4);
    assert(tb.len() >= 8);
    let rest = tb + concat(tp.drop_first());
    assert(layer_bytes(l) == pre + rest);
    assert forall|j: int| 0 <= j < 8 implies #[trigger] layer_bytes(l)[21 + nb.len() + j] == tb[j] by {
        assert((pre + rest)[pre.len() + j] == rest[j]);
    }
}

/// A tile's place in the file: after the 52-byte header and the first
/// layer's name length, name, visibility, opacity, blend mode and tile
/// count (21 bytes besides the name), the first tile record begins with
/// the tile's column `tx` and then its row `ty`, each as four bytes, least
/// significant first.
#[verifier::rlimit(60)]
#[verifier::spinoff_prover]
pub proof fn law_tile_record_starts_with_tx_then_ty(c: CanvasModel)
    requires
        c.layers.len() > 0,
        c.layers[0].tiles.len() > 0,
    ensures
        ({
            let b = canvas_bytes(c);
            let k = c.layers[0].tiles[0].0;
            let o: int = 73 + vstd::utf8::encode_utf8(c.layers[0].name).len() as int;
            &&& b.len() >= o + 8
            &&& b[o] == k.tx % 256
            &&& b[o + 1] == (k.tx / 256) % 256
            &&& b[o + 2] == (k.tx / 256 / 256) % 256
            &&& b[o + 3] == (k.tx / 256 / 256 / 256) % 256
            &&& b[o + 4] == k.ty % 256
            &&& b[o + 5] == (k.ty / 256) % 256
            &&& b[o + 6] == (k.ty / 256 / 256) % 256
            &&& b[o + 7] == (k.ty / 256 / 256 / 256) % 256
        }),
{
    let l = c.layers[0];
    let t = l.tiles[0];
    let n = vstd::utf8::encode_utf8(l.name).len() as int;
    lemma_header_len(c);
    let lp = layer_parts(c.layers);
    lemma_concat_first(lp);
    lemma_first_tile_in_layer(l);
    let lb = layer_bytes(l);
    let tail = lb + concat(lp.drop_first());
    let b = canvas_bytes(c);
    assert(b == header_bytes(c) + tail);
    let tb = tile_bytes(t);
    lemma_le4(t.0.tx as nat);
    lemma_le4(t.0.ty as nat);
    assert(tb == le_bytes(t.0.tx as nat, 4) + le_bytes(t.0.ty as nat, 4) + u16s_bytes(t.1));
    assert forall|j: int| 0 <= j < 8 implies #[trigger] b[73 + n + j] == tb[j] by {
        assert(b[52 + (21 + n + j)] == tail[21 + n + j]);
        assert(tail[21 + n + j] == lb[21 + n + j]);
    }
    assert(b[73 + n + 0] == tb[0]);
    assert(b[73 + n + 1] == tb[1]);
    assert(b[73 + n + 2] == tb[2]);
    assert(b[73 + n + 3] == tb[3]);
    assert(b[73 + n + 4] == tb[4]);
    assert(b[73 + n + 5] == tb[5]);
    assert(b[73 + n + 6] == tb[6]);
    assert(b[73 + n + 7] == tb[7]);
}

impl Layer {
    /// Store `tile` under `key`, keeping keys in increasing order and
    /// replacing a tile already stored under `key`.
    pub fn set_tile(&mut self, key: TileKey, tile: Tile)
        requires
            sorted_keys(tiles_model(old(self).tiles@)),
        ensures
            tiles_model(final(self).tiles@) == insert_tile(
                tiles_model(old(self).tiles@),
                key,
                tile.pixels@,
            ),
            sorted_keys(tiles_model(final(self).tiles@)),
            final(self).name == old(self).name,
            final(self).visible == old(self).visible,
            final(self).opacity == old(self).opacity,
            final(self).blend == old(self).blend,
    {
        proof {
            lemma_insert_sorted(tiles_model(self.tiles@), key, tile.pixels@);
        }
        insert_tile_exec(&mut self.tiles, key, tile);
    }

    /// The tile stored under `key`, if any.
    pub fn get_tile(&self, key: TileKey) -> (r: Option<&Tile>)
        ensures
            r matches Some(t) ==> exists|i: int|
                0 <= i < self.tiles@.len() && self.tiles@[i].0 == key && self.tiles@[i].1 == *t,
            r is None ==> forall|i: int| 0 <= i < self.tiles@.len() ==> self.tiles@[i].0 != key,
    {
        let mut i: usize = 0;
        while i < self.tiles.len()
            invariant
                i <= self.tiles@.len(),
                forall|j: int| 0 <= j < i ==> self.tiles@[j].0 != key,
            decreases self.tiles@.len() - i,
        {
            if self.tiles[i].0 == key {
                return Some(&self.tiles[i].1);
            }
            i += 1;
        }
        None
    }
}

/// The lower-case hexadecimal digit for `d` (`d < 16`).
pub open spec fn hex_digit(d: nat) -> char {
    if d < 10 {
        crate::text::digit_char(d)
    } else if d == 10 {
        'a'
    } else if d == 11 {
        'b'
    } else if d == 12 {
        'c'
    } else if d == 13 {
        'd'
    } else if d == 14 {
        'e'
    } else {
        'f'
    }
}

/// `x` as `0x` and four lower-case hexadecimal digits.
pub open spec fn hex4(x: u16) -> Seq<char> {
    seq![
        '0',
        'x',
        hex_digit((x as nat / 4096) % 16),
        hex_digit((x as nat / 256) % 16),
        hex_digit((x as nat / 16) % 16),
        hex_digit(x as nat % 16),
    ]
}

fn hex_digit_exec(d: u16) -> (c: char)
    requires
        d < 16,
    ensures
        c == hex_digit(d as nat),
{
    if d < 10 {
        crate::text::digit(d as u64)
    } else if d == 10 {
        'a'
    } else if d == 11 {
        'b'
    } else if d == 12 {
        'c'
    } else if d == 13 {
        'd'
    } else if d == 14 {
        'e'
    } else {
        'f'
    }
}

/// The diagnostic text of a decode error.
pub open spec fn decode_error_text(e: DecodeError) -> Seq<char> {
    match e {
        DecodeError::BadMagic => "bad magic: not a .ptype container"@,
        DecodeError::UnsupportedVersion(v) => "unsupported .ptype version "@ + decimal(v as nat),
        DecodeError::UnsupportedFlags(x) => "unsupported .ptype flags "@ + hex4(x),
        DecodeError::UnsupportedFormat(x) => "unsupported pixel format "@ + decimal(x as nat),
        DecodeError::TileGeometryMismatch { got, expected } => "tile geometry mismatch: file has "@
            + decimal(got.0 as nat) + "x"@ + decimal(got.1 as nat) + "c, this build expects "@
            + decimal(expected.0 as nat) + "x"@ + decimal(expected.1 as nat) + "c"@,
        DecodeError::UnknownBlendMode(x) => "unknown blend mode "@ + decimal(x as nat),
        DecodeError::UnexpectedEof { context } => "unexpected end of input while reading "@
            + context@,
        DecodeError::InvalidUtf8 { context } => "invalid UTF-8 in "@ + context@,
        DecodeError::TrailingBytes { extra } => decimal(extra as nat) + " trailing byte(s) after canvas"@,
    }
}

impl DecodeError {
    /// The diagnostic for this error.
    pub fn to_display_string(&self) -> (s: String)
        ensures
            s@ == decode_error_text(*self),
    {
        match self {
            DecodeError::BadMagic => "bad magic: not a .ptype container".to_owned(),
            DecodeError::UnsupportedVersion(v) => {
                let mut s = String::from_str("unsupported .ptype version ");
                s.append(u64_to_decimal(*v as u64).as_str());
                s
            },
            DecodeError::UnsupportedFlags(x) => {
                let mut s = String::from_str("unsupported .ptype flags 0x");
                let x = *x;
                s.push(hex_digit_exec((x / 4096) % 16));
                s.push(hex_digit_exec((x / 256) % 16));
                s.push(hex_digit_exec((x / 16) % 16));
                s.push(hex_digit_exec(x % 16));
                proof {
                    reveal_strlit("unsupported .ptype flags 0x");
                    reveal_strlit("unsupported .ptype flags ");
                }
                assert(s@ =~= "unsupported .ptype flags "@ + hex4(x));
                s
            },
            DecodeError::UnsupportedFormat(x) => {
                let mut s = String::from_str("unsupported pixel format ");
                s.append(u64_to_decimal(*x as u64).as_str());
                s
            },
            DecodeError::TileGeometryMismatch { got, expected } => {
                let mut s = String::from_str("tile geometry mismatch: file has ");
                s.append(u64_to_decimal(got.0 as u64).as_str());
                s.append("x");
                s.append(u64_to_decimal(got.1 as u64).as_str());
                s.append("c, this build expects ");
                s.append(u64_to_decimal(expected.0 as u64).as_str());
                s.append("x");
                s.append(u64_to_decimal(expected.1 as u64).as_str());
                s.append("c");
                s
            },
            DecodeError::UnknownBlendMode(x) => {
                let mut s = String::from_str("unknown blend mode ");
                s.append(u64_to_decimal(*x as u64).as_str());
                s
            },
            DecodeError::UnexpectedEof { context } => {
                let mut s = String::from_str("unexpected end of input while reading ");
                s.append(context);
                s
            },
            DecodeError::InvalidUtf8 { context } => {
                let mut s = String::from_str("invalid UTF-8 in ");
                s.append(context);
                s
            },
            DecodeError::TrailingBytes { extra } => {
                let mut s = u64_to_decimal(*extra as u64);
                s.append(" trailing byte(s) after canvas");
                s
            },
        }
    }
}

} // verus!
