//! The editor's PNG files: 8-bit RGBA images, one image-data chunk whose
//! zlib stream holds stored (uncompressed) deflate blocks, every row
//! unfiltered. Encoding writes exactly that layout; decoding reads it
//! back, and what one writes the other reads unchanged.

use vstd::prelude::*;
use crate::text::{decimal, u64_to_decimal};

verus! {

//==============================================================================
// Checksums
//==============================================================================

/// One bit step of the reflected CRC-32 (polynomial 0xEDB88320).
pub open spec fn crc_bit(c: u32) -> u32 {
    if c & 1 == 1 {
        (c >> 1) ^ 0xEDB8_8320u32
    } else {
        c >> 1
    }
}

/// The CRC-32 register after taking in byte `b`.
pub open spec fn crc_byte(c: u32, b: u8) -> u32 {
    crc_bit(crc_bit(crc_bit(crc_bit(crc_bit(crc_bit(crc_bit(crc_bit(c ^ (b as u32)))))))))
}

/// The CRC-32 register after taking in `data`, starting from all ones.
pub open spec fn crc_register(data: Seq<u8>) -> u32
    decreases data.len(),
{
    if data.len() == 0 {
        0xFFFF_FFFFu32
    } else {
        crc_byte(crc_register(data.drop_last()), data.last())
    }
}

/// The CRC-32 of `data` as PNG chunks carry it.
pub open spec fn crc32(data: Seq<u8>) -> u32 {
    crc_register(data) ^ 0xFFFF_FFFFu32
}

fn crc_bit_exec(c: u32) -> (r: u32)
    ensures
        r == crc_bit(c),
{
    if c & 1 == 1 {
        (c >> 1) ^ 0xEDB8_8320u32
    } else {
        c >> 1
    }
}

/// The CRC-32 of `data`.
pub fn crc32_of(data: &[u8]) -> (r: u32)
    ensures
        r == crc32(data@),
{
    let mut c: u32 = 0xFFFF_FFFF;
    let mut i: usize = 0;
    while i < data.len()
        invariant
            i <= data@.len(),
            c == crc_register(data@.take(i as int)),
        decreases data@.len() - i,
    {
        proof {
            assert(data@.take(i + 1).drop_last() =~= data@.take(i as int));
        }
        let x = c ^ (data[i] as u32);
        c = crc_bit_exec(crc_bit_exec(crc_bit_exec(crc_bit_exec(crc_bit_exec(crc_bit_exec(crc_bit_exec(crc_bit_exec(x))))))));
        i += 1;
    }
    assert(data@.take(data@.len() as int) =~= data@);
    c ^ 0xFFFF_FFFFu32
}

/// The two Adler-32 sums of `data`.
pub open spec fn adler_sums(data: Seq<u8>) -> (nat, nat)
    decreases data.len(),
{
    if data.len() == 0 {
        (1, 0)
    } else {
        let (a, b) = adler_sums(data.drop_last());
        let a2 = ((a + data.last()) % 65521) as nat;
        (a2, ((b + a2) % 65521) as nat)
    }
}

/// The Adler-32 checksum of `data`, as a zlib stream ends with it.
pub open spec fn adler32(data: Seq<u8>) -> nat {
    adler_sums(data).1 * 65536 + adler_sums(data).0
}

proof fn lemma_adler_bounds(data: Seq<u8>)
    ensures
        adler_sums(data).0 < 65521,
        adler_sums(data).1 < 65521,
    decreases data.len(),
{
    if data.len() > 0 {
        lemma_adler_bounds(data.drop_last());
    }
}

/// The Adler-32 checksum of `data`.
pub fn adler32_of(data: &[u8]) -> (r: u32)
    ensures
        r == adler32(data@),
{
    let mut a: u32 = 1;
    let mut b: u32 = 0;
    let mut i: usize = 0;
    while i < data.len()
        invariant
            i <= data@.len(),
            a == adler_sums(data@.take(i as int)).0,
            b == adler_sums(data@.take(i as int)).1,
            a < 65521,
            b < 65521,
        decreases data@.len() - i,
    {
        proof {
            assert(data@.take(i + 1).drop_last() =~= data@.take(i as int));
        }
        a = (a + data[i] as u32) % 65521;
        b = (b + a) % 65521;
        i += 1;
    }
    assert(data@.take(data@.len() as int) =~= data@);
    b * 65536 + a
}

//==============================================================================
// Numbers as bytes
//==============================================================================

/// `x` as four big-endian bytes.
pub open spec fn be32(x: nat) -> Seq<u8> {
    seq![(x / 16777216 % 256) as u8, (x / 65536 % 256) as u8, (x / 256 % 256) as u8, (x % 256) as u8]
}

/// The big-endian number in the four bytes of `s` from `at`.
pub open spec fn read_be32(s: Seq<u8>, at: int) -> nat {
    (s[at] * 16777216 + s[at + 1] * 65536 + s[at + 2] * 256 + s[at + 3]) as nat
}

/// `x` as two little-endian bytes.
pub open spec fn le16(x: nat) -> Seq<u8> {
    seq![(x % 256) as u8, (x / 256 % 256) as u8]
}

/// The little-endian number in the two bytes of `s` from `at`.
pub open spec fn read_le16(s: Seq<u8>, at: int) -> nat {
    (s[at] + s[at + 1] * 256) as nat
}

proof fn lemma_be32_read(x: nat, s: Seq<u8>, at: int)
    requires
        x < 0x1_0000_0000,
        0 <= at,
        at + 4 <= s.len(),
        s.subrange(at, at + 4) == be32(x),
    ensures
        read_be32(s, at) == x,
{
    assert(s[at] == be32(x)[0]);
    assert(s[at + 1] == be32(x)[1]);
    assert(s[at + 2] == be32(x)[2]);
    assert(s[at + 3] == be32(x)[3]);
    assert((x / 16777216 % 256) * 16777216 + (x / 65536 % 256) * 65536 + (x / 256 % 256) * 256 + x % 256 == x)
        by (nonlinear_arith)
        requires
            x < 0x1_0000_0000,
    ;
}

proof fn lemma_le16_read(x: nat, s: Seq<u8>, at: int)
    requires
        x < 65536,
        0 <= at,
        at + 2 <= s.len(),
        s.subrange(at, at + 2) == le16(x),
    ensures
        read_le16(s, at) == x,
{
    assert(s[at] == le16(x)[0]);
    assert(s[at + 1] == le16(x)[1]);
    assert(x % 256 + (x / 256 % 256) * 256 == x) by (nonlinear_arith)
        requires
            x < 65536,
    ;
}

fn push_be32(out: &mut Vec<u8>, x: u32)
    ensures
        final(out)@ == old(out)@ + be32(x as nat),
{
    out.push((x / 16777216 % 256) as u8);
    out.push((x / 65536 % 256) as u8);
    out.push((x / 256 % 256) as u8);
    out.push((x % 256) as u8);
    assert(out@ =~= old(out)@ + be32(x as nat));
}

fn push_le16(out: &mut Vec<u8>, x: u32)
    requires
        x < 65536,
    ensures
        final(out)@ == old(out)@ + le16(x as nat),
{
    out.push((x % 256) as u8);
    out.push((x / 256 % 256) as u8);
    assert(out@ =~= old(out)@ + le16(x as nat));
}

fn read_be32_at(s: &[u8], at: usize) -> (r: u32)
    requires
        at + 4 <= s@.len(),
    ensures
        r == read_be32(s@, at as int),
{
    (s[at] as u32) * 16777216 + (s[at + 1] as u32) * 65536 + (s[at + 2] as u32) * 256 + s[at + 3] as u32
}


//==============================================================================
// Encoding
//==============================================================================

/// The PNG signature.
pub open spec fn signature() -> Seq<u8> {
    seq![0x89u8, 0x50, 0x4E, 0x47, 0x0D, 0x0A, 0x1A, 0x0A]
}

/// The first `h` rows of `rgba`, `row` bytes each, each preceded by the
/// filter byte 0 ("none").
pub open spec fn filtered_rows(rgba: Seq<u8>, row: nat, h: nat) -> Seq<u8>
    decreases h,
{
    if h == 0 {
        Seq::empty()
    } else {
        filtered_rows(rgba, row, (h - 1) as nat) + seq![0u8] + rgba.subrange((h - 1) * row, (h * row) as int)
    }
}

/// `raw` as stored deflate blocks of at most 65535 bytes, the last one
/// marked final.
pub open spec fn stored_blocks(raw: Seq<u8>) -> Seq<u8>
    decreases raw.len(),
{
    if raw.len() <= 65535 {
        seq![1u8] + le16(raw.len()) + le16((65535 - raw.len()) as nat) + raw
    } else {
        seq![0u8] + le16(65535) + le16(0) + raw.take(65535) + stored_blocks(raw.skip(65535))
    }
}

/// The zlib stream of `raw`: header, stored blocks, Adler-32.
pub open spec fn zlib_stored(raw: Seq<u8>) -> Seq<u8> {
    seq![0x78u8, 0x01] + stored_blocks(raw) + be32(adler32(raw))
}

/// A PNG chunk: length, type, data, CRC-32 of type and data.
pub open spec fn chunk(kind: Seq<u8>, data: Seq<u8>) -> Seq<u8> {
    be32(data.len()) + kind + data + be32(crc32(kind + data) as nat)
}

/// The chunk type `IHDR`.
pub open spec fn ihdr_kind() -> Seq<u8> {
    seq![0x49u8, 0x48, 0x44, 0x52]
}

/// The chunk type `IDAT`.
pub open spec fn idat_kind() -> Seq<u8> {
    seq![0x49u8, 0x44, 0x41, 0x54]
}

/// The chunk type `IEND`.
pub open spec fn iend_kind() -> Seq<u8> {
    seq![0x49u8, 0x45, 0x4E, 0x44]
}

/// The header of a `w` by `h` 8-bit RGBA, non-interlaced image.
pub open spec fn ihdr_data(w: u32, h: u32) -> Seq<u8> {
    be32(w as nat) + be32(h as nat) + seq![8u8, 6, 0, 0, 0]
}

/// The PNG file of a `w` by `h` image with straight-alpha RGBA8 pixels
/// `rgba`.
pub open spec fn png_bytes(rgba: Seq<u8>, w: u32, h: u32) -> Seq<u8> {
    signature() + chunk(ihdr_kind(), ihdr_data(w, h)) + chunk(
        idat_kind(),
        zlib_stored(filtered_rows(rgba, 4 * w as nat, h as nat)),
    ) + chunk(iend_kind(), Seq::empty())
}

/// The number of bytes of the stored blocks of `n` raw bytes.
pub open spec fn stored_len(n: nat) -> nat
    decreases n,
{
    if n <= 65535 {
        n + 5
    } else {
        65540 + stored_len((n - 65535) as nat)
    }
}

proof fn lemma_stored_len(raw: Seq<u8>)
    ensures
        stored_blocks(raw).len() == stored_len(raw.len()),
        stored_len(raw.len()) <= raw.len() + 5 * (raw.len() / 65535 + 1),
    decreases raw.len(),
{
    if raw.len() > 65535 {
        lemma_stored_len(raw.skip(65535));
        assert((raw.len() - 65535) as nat / 65535 + 1 == raw.len() / 65535) by (nonlinear_arith)
            requires
                raw.len() > 65535,
        ;
    }
}

proof fn lemma_filtered_len(rgba: Seq<u8>, row: nat, h: nat)
    requires
        row * h <= rgba.len(),
    ensures
        filtered_rows(rgba, row, h).len() == (row + 1) * h,
    decreases h,
{
    if h == 0 {
        assert((row + 1) * h == 0) by (nonlinear_arith)
            requires
                h == 0,
        ;
    } else {
        let hm = (h - 1) as nat;
        assert(hm * row <= h * row && h * row == row * h && row * hm == hm * row && (row + 1) * h == (row + 1) * hm
            + row + 1 && h * row - hm * row == row) by (nonlinear_arith)
            requires
                h > 0,
                hm == h - 1,
        ;
        lemma_filtered_len(rgba, row, hm);
        let tail = rgba.subrange((hm * row) as int, (h * row) as int);
        assert(tail.len() == row);
        assert(filtered_rows(rgba, row, h) == filtered_rows(rgba, row, hm) + seq![0u8] + tail);
    }
}

fn push_slice(out: &mut Vec<u8>, data: &[u8], from: usize, to: usize)
    requires
        from <= to <= data@.len(),
    ensures
        final(out)@ == old(out)@ + data@.subrange(from as int, to as int),
{
    let mut i = from;
    while i < to
        invariant
            from <= i <= to <= data@.len(),
            out@ == old(out)@ + data@.subrange(from as int, i as int),
        decreases to - i,
    {
        out.push(data[i]);
        i += 1;
        assert(out@ =~= old(out)@ + data@.subrange(from as int, i as int));
    }
}

fn push_chunk(out: &mut Vec<u8>, kind: &[u8], data: &[u8])
    requires
        kind@.len() == 4,
        data@.len() < 0x1_0000_0000,
    ensures
        final(out)@ == old(out)@ + chunk(kind@, data@),
{
    push_be32(out, data.len() as u32);
    let mut typed: Vec<u8> = Vec::new();
    push_slice(&mut typed, kind, 0, kind.len());
    push_slice(&mut typed, data, 0, data.len());
    assert(typed@ =~= kind@ + data@);
    let crc = crc32_of(typed.as_slice());
    push_slice(out, typed.as_slice(), 0, typed.len());
    push_be32(out, crc);
    assert(typed@.subrange(0, typed@.len() as int) =~= typed@);
    assert(kind@.subrange(0, 4) =~= kind@);
    assert(data@.subrange(0, data@.len() as int) =~= data@);
    assert(out@ =~= old(out)@ + chunk(kind@, data@));
}

proof fn lemma_row_step(row: nat, y: nat, h: nat)
    requires
        y < h,
    ensures
        row * (y + 1) == row * y + row,
        row * (y + 1) <= row * h,
        y * row == row * y,
        (y + 1) * row == row * (y + 1),
{
    assert(row * (y + 1) == row * y + row) by (nonlinear_arith);
    assert(row * (y + 1) <= row * h) by (nonlinear_arith)
        requires
            y < h,
    ;
    assert(y * row == row * y && (y + 1) * row == row * (y + 1)) by (nonlinear_arith);
}

/// The rows of `rgba`, each preceded by filter byte 0.
fn filter_rows(rgba: &[u8], row: usize, h: usize) -> (raw: Vec<u8>)
    requires
        row * h == rgba@.len(),
        (row + 1) * h <= usize::MAX,
    ensures
        raw@ == filtered_rows(rgba@, row as nat, h as nat),
{
    let mut raw: Vec<u8> = Vec::new();
    let n = rgba.len();
    let mut y: usize = 0;
    let mut off: usize = 0;
    while y < h
        invariant
            y <= h,
            row * h == rgba@.len(),
            n == rgba@.len(),
            off == row * y,
            raw@ == filtered_rows(rgba@, row as nat, y as nat),
        decreases h - y,
    {
        proof {
            lemma_row_step(row as nat, y as nat, h as nat);
        }
        assert(off + row <= rgba@.len());
        raw.push(0u8);
        push_slice(&mut raw, rgba, off, off + row);
        off = off + row;
        y += 1;
        assert(raw@ =~= filtered_rows(rgba@, row as nat, y as nat));
    }
    raw
}

/// The stored blocks of `raw`.
fn store_blocks(out: &mut Vec<u8>, raw: &[u8])
    ensures
        final(out)@ == old(out)@ + stored_blocks(raw@),
{
    let mut p: usize = 0;
    let n = raw.len();
    assert(raw@.skip(0) =~= raw@);
    while n - p > 65535
        invariant
            p <= n,
            n == raw@.len(),
            old(out)@ + stored_blocks(raw@) == out@ + stored_blocks(raw@.skip(p as int)),
        decreases n - p,
    {
        let ghost rest = raw@.skip(p as int);
        out.push(0u8);
        push_le16(out, 65535);
        push_le16(out, 0);
        push_slice(out, raw, p, p + 65535);
        proof {
            assert(rest.take(65535) =~= raw@.subrange(p as int, p + 65535));
            assert(rest.skip(65535) =~= raw@.skip(p + 65535));
            assert(stored_blocks(rest) =~= seq![0u8] + le16(65535) + le16(0) + rest.take(65535) + stored_blocks(
                rest.skip(65535),
            ));
        }
        p = p + 65535;
        assert(old(out)@ + stored_blocks(raw@) =~= out@ + stored_blocks(raw@.skip(p as int)));
    }
    let ghost rest = raw@.skip(p as int);
    let len = n - p;
    out.push(1u8);
    push_le16(out, len as u32);
    push_le16(out, (65535 - len) as u32);
    push_slice(out, raw, p, n);
    assert(rest =~= raw@.subrange(p as int, n as int));
    assert(out@ =~= old(out)@ + stored_blocks(raw@));
}

/// A `w` by `h` image whose PNG file stays well under 4 GiB, as one
/// image-data chunk must.
pub open spec fn png_fits(w: u32, h: u32) -> bool {
    (4 * w + 1) * h + 5 * ((4 * w + 1) * h / 65535 + 1) + 100 < 0x1_0000_0000
}

/// The PNG file of a `w` by `h` image with straight-alpha RGBA8 pixels,
/// or an error when the buffer does not hold `w * h` pixels.
pub fn encode_png(rgba: &[u8], w: u32, h: u32) -> (r: Result<Vec<u8>, String>)
    requires
        png_fits(w, h),
    ensures
        rgba@.len() == 4 * w * h ==> (r matches Ok(b) && b@ == png_bytes(rgba@, w, h)),
        rgba@.len() != 4 * w * h ==> (r matches Err(m) && m@ == "pixel buffer holds "@ + decimal(rgba@.len())
            + " bytes, expected "@ + decimal((4 * w * h) as nat)),
{
    assert(4 * w * h <= (4 * w + 1) * h) by (nonlinear_arith);
    let expected: u64 = if h == 0 { 0 } else { 4 * (w as u64) * (h as u64) };
    assert(expected == 4 * w * h) by (nonlinear_arith)
        requires
            (4 * w + 1) * h < 0x1_0000_0000,
            h == 0 ==> expected == 0,
            h > 0 ==> expected == 4 * w * h,
    ;
    if rgba.len() as u64 != expected {
        let mut m = String::from_str("pixel buffer holds ");
        m.append(u64_to_decimal(rgba.len() as u64).as_str());
        m.append(" bytes, expected ");
        m.append(u64_to_decimal(expected).as_str());
        return Err(m);
    }
    let raw = if h == 0 {
        let raw = filter_rows(rgba, 0, 0);
        assert(raw@ == filtered_rows(rgba@, 4 * w as nat, h as nat));
        raw
    } else {
        assert(4 * w + 1 <= (4 * w + 1) * h && 4 * w * h == (4 * w) * h && (4 * w + 1) * h == (4 * w) * h + h)
            by (nonlinear_arith)
            requires
                h > 0,
        ;
        let row: usize = (4 * (w as u64)) as usize;
        filter_rows(rgba, row, h as usize)
    };
    proof {
        lemma_filtered_len(rgba@, 4 * w as nat, h as nat);
        lemma_stored_len(raw@);
    }
    let mut z: Vec<u8> = Vec::new();
    z.push(0x78u8);
    z.push(0x01u8);
    store_blocks(&mut z, raw.as_slice());
    push_be32(&mut z, adler32_of(raw.as_slice()));
    assert(z@ =~= zlib_stored(raw@));

    let mut ihdr: Vec<u8> = Vec::new();
    push_be32(&mut ihdr, w);
    push_be32(&mut ihdr, h);
    ihdr.push(8u8);
    ihdr.push(6u8);
    ihdr.push(0u8);
    ihdr.push(0u8);
    ihdr.push(0u8);
    assert(ihdr@ =~= ihdr_data(w, h));

    let mut out: Vec<u8> = Vec::new();
    out.push(0x89u8);
    out.push(0x50u8);
    out.push(0x4Eu8);
    out.push(0x47u8);
    out.push(0x0Du8);
    out.push(0x0Au8);
    out.push(0x1Au8);
    out.push(0x0Au8);
    assert(out@ =~= signature());
    let ihdr_k: [u8; 4] = [0x49, 0x48, 0x44, 0x52];
    let idat_k: [u8; 4] = [0x49, 0x44, 0x41, 0x54];
    let iend_k: [u8; 4] = [0x49, 0x45, 0x4E, 0x44];
    assert(ihdr_k@ =~= ihdr_kind());
    assert(idat_k@ =~= idat_kind());
    assert(iend_k@ =~= iend_kind());
    push_chunk(&mut out, &ihdr_k, ihdr.as_slice());
    push_chunk(&mut out, &idat_k, z.as_slice());
    let empty: Vec<u8> = Vec::new();
    push_chunk(&mut out, &iend_k, empty.as_slice());
    assert(empty@ =~= Seq::<u8>::empty());
    assert(out@ =~= png_bytes(rgba@, w, h));
    Ok(out)
}


//==============================================================================
// Decoding
//==============================================================================

/// Stored deflate blocks at the start of `s`: their data and the number
/// of bytes they take, up to and including the final block; `None` for
/// any other kind of block or a block running past the end.
pub open spec fn parse_stored(s: Seq<u8>) -> Option<(Seq<u8>, nat)>
    decreases s.len(),
{
    if s.len() < 5 {
        None
    } else {
        let len = read_le16(s, 1) as int;
        if (s[0] / 2) % 4 != 0 || 5 + len > s.len() {
            None
        } else if s[0] % 2 == 1 {
            Some((s.subrange(5, 5 + len), (5 + len) as nat))
        } else {
            match parse_stored(s.skip(5 + len)) {
                Some((d, n)) => Some((s.subrange(5, 5 + len) + d, (5 + len + n) as nat)),
                None => None,
            }
        }
    }
}

/// The filter byte of row `y` in rows of `row` bytes each preceded by one.
pub open spec fn filter_byte(raw: Seq<u8>, row: nat, y: nat) -> u8 {
    raw[(y * (row + 1)) as int]
}

/// `raw` holds `h` rows of `row` bytes, each preceded by filter byte 0.
pub open spec fn rows_unfiltered(raw: Seq<u8>, row: nat, h: nat) -> bool {
    forall|y: nat| y < h ==> #[trigger] filter_byte(raw, row, y) == 0
}

/// The pixel bytes of the first `h` rows of `raw`, filter bytes dropped.
pub open spec fn strip_filters(raw: Seq<u8>, row: nat, h: nat) -> Seq<u8>
    decreases h,
{
    if h == 0 {
        Seq::empty()
    } else {
        strip_filters(raw, row, (h - 1) as nat) + raw.subrange((h - 1) * (row + 1) + 1, (h * (row + 1)) as int)
    }
}

/// What `decode_png` gives for the bytes `b`: the pixels, width and height
/// of a file laid out as `encode_png` writes it, or why it is refused.
pub open spec fn decode_png_spec(b: Seq<u8>) -> Result<(Seq<u8>, u32, u32), Seq<char>> {
    if b.len() < 57 || b.take(8) != signature() {
        Err("not a PNG file"@)
    } else if b.subrange(8, 16) != be32(13) + ihdr_kind() || b.subrange(24, 29) != seq![8u8, 6, 0, 0, 0] {
        Err("only 8-bit RGBA, non-interlaced PNGs are read"@)
    } else {
        let w = read_be32(b, 16);
        let h = read_be32(b, 20);
        let n = read_be32(b, 33) as int;
        if b.subrange(37, 41) != idat_kind() || b.len() != 57 + n || b.subrange(45 + n, 57 + n) != chunk(
            iend_kind(),
            Seq::empty(),
        ) {
            Err("unsupported chunk layout"@)
        } else if n < 6 || b[41] != 0x78 || b[42] != 0x01 {
            Err("unsupported zlib stream"@)
        } else {
            match parse_stored(b.subrange(43, 37 + n)) {
                None => Err("only stored deflate blocks are read"@),
                Some((raw, used)) => if used != n - 6 || raw.len() != (4 * w + 1) * h {
                    Err("image data does not match its size"@)
                } else if !rows_unfiltered(raw, 4 * w, h) {
                    Err("only unfiltered rows are read"@)
                } else {
                    Ok((strip_filters(raw, 4 * w, h), w as u32, h as u32))
                },
            }
        }
    }
}

/// The header of every file written: the width comes first, as four
/// big-endian bytes right after the signature and the `IHDR` length and
/// type (offset 16), then the height (offset 20), then bit depth 8 and
/// colour type 6 (RGBA).
pub proof fn law_png_header_width_then_height(rgba: Seq<u8>, w: u32, h: u32)
    ensures
        ({
            let b = png_bytes(rgba, w, h);
            &&& b.len() > 25
            &&& b[12] == 0x49 && b[13] == 0x48 && b[14] == 0x44 && b[15] == 0x52
            &&& b[16] == w / 16777216 && b[17] == w / 65536 % 256 && b[18] == w / 256 % 256
            &&& b[19] == w % 256
            &&& b[20] == h / 16777216 && b[21] == h / 65536 % 256 && b[22] == h / 256 % 256
            &&& b[23] == h % 256
            &&& b[24] == 8 && b[25] == 6
        }),
{
    let d = ihdr_data(w, h);
    let c = chunk(ihdr_kind(), d);
    assert(d.len() == 13);
    assert(c == be32(13) + ihdr_kind() + d + be32(crc32(ihdr_kind() + d) as nat));
    let rest = chunk(idat_kind(), zlib_stored(filtered_rows(rgba, 4 * w as nat, h as nat))) + chunk(
        iend_kind(),
        Seq::empty(),
    );
    let b = png_bytes(rgba, w, h);
    assert(b =~= signature() + c + rest);
    assert forall|j: int| 0 <= j < 13 implies #[trigger] b[16 + j] == d[j] by {
        assert(b[16 + j] == c[8 + j]);
    }
    assert forall|j: int| 0 <= j < 4 implies #[trigger] b[12 + j] == ihdr_kind()[j] by {
        assert(b[12 + j] == c[4 + j]);
    }
    assert(b[12] == ihdr_kind()[0]);
    assert(b[13] == ihdr_kind()[1]);
    assert(b[14] == ihdr_kind()[2]);
    assert(b[15] == ihdr_kind()[3]);
    assert(b[16] == d[0]);
    assert(b[17] == d[1]);
    assert(b[18] == d[2]);
    assert(b[19] == d[3]);
    assert(b[20] == d[4]);
    assert(b[21] == d[5]);
    assert(b[22] == d[6]);
    assert(b[23] == d[7]);
    assert(b[24] == d[8]);
    assert(b[25] == d[9]);
}

/// What the reader takes as the image size: the width is the big-endian
/// number at offset 16 and the height the one at offset 20.
pub proof fn law_png_read_width_then_height(b: Seq<u8>)
    ensures
        decode_png_spec(b) matches Ok((_, w, h)) ==> w == b[16] * 16777216 + b[17] * 65536 + b[18] * 256
            + b[19] && h == b[20] * 16777216 + b[21] * 65536 + b[22] * 256 + b[23],
{
}

proof fn lemma_parse_stored(raw: Seq<u8>, t: Seq<u8>)
    ensures
        parse_stored(stored_blocks(raw) + t) == Some((raw, stored_len(raw.len()))),
    decreases raw.len(),
{
    let s = stored_blocks(raw) + t;
    if raw.len() <= 65535 {
        let n = raw.len();
        assert(s.subrange(1, 3) =~= le16(n));
        lemma_le16_read(n, s, 1);
        assert(s.subrange(5, (5 + n) as int) =~= raw);
    } else {
        let rest = raw.skip(65535);
        assert(s.subrange(1, 3) =~= le16(65535));
        lemma_le16_read(65535, s, 1);
        lemma_stored_len(rest);
        lemma_parse_stored(rest, t);
        assert(s.skip(65540) =~= stored_blocks(rest) + t);
        assert(s.subrange(5, 65540) =~= raw.take(65535));
        assert(raw.take(65535) + rest =~= raw);
    }
}

proof fn lemma_strip_prefix(x: Seq<u8>, y: Seq<u8>, row: nat, k: nat)
    requires
        x.len() >= (row + 1) * k,
    ensures
        strip_filters(x + y, row, k) == strip_filters(x, row, k),
        forall|j: nat| j < k ==> #[trigger] filter_byte(x + y, row, j) == filter_byte(x, row, j),
    decreases k,
{
    if k > 0 {
        let km = (k - 1) as nat;
        assert((row + 1) * km <= (row + 1) * k && (row + 1) * k == km * (row + 1) + row + 1) by (nonlinear_arith)
            requires
                k > 0,
                km == k - 1,
        ;
        lemma_strip_prefix(x, y, row, km);
        assert((x + y).subrange((km * (row + 1) + 1) as int, (k * (row + 1)) as int) =~= x.subrange(
            (km * (row + 1) + 1) as int,
            (k * (row + 1)) as int,
        )) by {
            assert(k * (row + 1) == (row + 1) * k) by (nonlinear_arith);
        }
        assert forall|j: nat| j < k implies #[trigger] filter_byte(x + y, row, j) == filter_byte(x, row, j) by {
            assert(j * (row + 1) < (row + 1) * k) by (nonlinear_arith)
                requires
                    j < k,
            ;
        }
    }
}

proof fn lemma_unfilter_rows(rgba: Seq<u8>, row: nat, h: nat)
    requires
        row * h <= rgba.len(),
    ensures
        rows_unfiltered(filtered_rows(rgba, row, h), row, h),
        strip_filters(filtered_rows(rgba, row, h), row, h) == rgba.take((row * h) as int),
    decreases h,
{
    if h == 0 {
        assert(row * h == 0) by (nonlinear_arith)
            requires
                h == 0,
        ;
        assert(rgba.take(0) =~= Seq::<u8>::empty());
    }
    if h > 0 {
        let hm = (h - 1) as nat;
        assert(hm * row <= h * row && h * row == row * h && row * hm == hm * row && h * row - hm * row == row
            && hm * (row + 1) == (row + 1) * hm && h * (row + 1) == hm * (row + 1) + row + 1) by (nonlinear_arith)
            requires
                h > 0,
                hm == h - 1,
        ;
        lemma_unfilter_rows(rgba, row, hm);
        lemma_filtered_len(rgba, row, hm);
        let prev = filtered_rows(rgba, row, hm);
        let tail = seq![0u8] + rgba.subrange((hm * row) as int, (h * row) as int);
        assert(filtered_rows(rgba, row, h) == prev + tail);
        lemma_strip_prefix(prev, tail, row, hm);
        assert((prev + tail).subrange((hm * (row + 1) + 1) as int, (h * (row + 1)) as int) =~= rgba.subrange(
            (hm * row) as int,
            (h * row) as int,
        ));
        assert(rgba.take((row * hm) as int) + rgba.subrange((hm * row) as int, (h * row) as int) =~= rgba.take(
            (row * h) as int,
        ));
        assert forall|y: nat| y < h implies #[trigger] filter_byte(prev + tail, row, y) == 0 by {
            if y < hm {
                assert(filter_byte(prev, row, y) == 0);
            } else {
                assert(y * (row + 1) == hm * (row + 1));
            }
        }
    }
}


/// Reading back a file `encode_png` wrote gives the same pixels, width and
/// height.
#[verifier::rlimit(100)]
#[verifier::spinoff_prover]
pub proof fn law_png_round_trip(rgba: Seq<u8>, w: u32, h: u32)
    requires
        png_fits(w, h),
        rgba.len() == 4 * w * h,
    ensures
        decode_png_spec(png_bytes(rgba, w, h)) == Ok::<(Seq<u8>, u32, u32), Seq<char>>((rgba, w, h)),
{
    let row = (4 * w) as nat;
    assert(4 * w * h == row * h);
    let raw = filtered_rows(rgba, row, h as nat);
    lemma_filtered_len(rgba, row, h as nat);
    lemma_stored_len(raw);
    lemma_unfilter_rows(rgba, row, h as nat);
    assert(rgba.take((row * h) as int) =~= rgba);
    let z = zlib_stored(raw);
    let n = z.len();
    assert(n == stored_len(raw.len()) + 6);
    assert(n < 0x1_0000_0000) by {
        assert(raw.len() == (4 * w + 1) * h);
    }
    let ihdr = chunk(ihdr_kind(), ihdr_data(w, h));
    let idat = chunk(idat_kind(), z);
    let iend = chunk(iend_kind(), Seq::empty());
    let b = png_bytes(rgba, w, h);
    assert(b =~= signature() + ihdr + idat + iend);
    assert(ihdr.len() == 25);
    assert(idat.len() == 12 + n);
    assert(iend.len() == 12);
    assert(b.len() == 57 + n);
    assert(b.take(8) =~= signature());
    assert(b.subrange(8, 16) =~= be32(13) + ihdr_kind());
    assert(b.subrange(24, 29) =~= seq![8u8, 6, 0, 0, 0]);
    assert(b.subrange(16, 20) =~= be32(w as nat));
    assert(b.subrange(20, 24) =~= be32(h as nat));
    assert(b.subrange(33, 37) =~= be32(n));
    lemma_be32_read(w as nat, b, 16);
    lemma_be32_read(h as nat, b, 20);
    lemma_be32_read(n, b, 33);
    assert(b.subrange(37, 41) =~= idat_kind());
    assert(b.subrange(45 + n as int, 57 + n as int) =~= iend);
    assert(b[41] == 0x78 && b[42] == 0x01);
    assert(b.subrange(43, 37 + n as int) =~= stored_blocks(raw) + Seq::<u8>::empty());
    lemma_parse_stored(raw, Seq::empty());
}


fn bytes_match(b: &[u8], at: usize, expect: &[u8]) -> (r: bool)
    requires
        at + expect@.len() <= b@.len(),
    ensures
        r == (b@.subrange(at as int, at + expect@.len()) == expect@),
{
    let blen = b.len();
    let mut i: usize = 0;
    while i < expect.len()
        invariant
            i <= expect@.len(),
            blen == b@.len(),
            at + expect@.len() <= b@.len(),
            forall|k: int| 0 <= k < i ==> b@[at + k] == expect@[k],
        decreases expect@.len() - i,
    {
        if b[at + i] != expect[i] {
            assert(b@.subrange(at as int, at + expect@.len())[i as int] != expect@[i as int]);
            return false;
        }
        i += 1;
    }
    assert(b@.subrange(at as int, at + expect@.len()) =~= expect@);
    true
}

/// Parse the stored deflate blocks of `b[from..to]`.
fn parse_stored_exec(b: &[u8], from: usize, to: usize) -> (r: Option<(Vec<u8>, usize)>)
    requires
        from <= to <= b@.len(),
    ensures
        match parse_stored(b@.subrange(from as int, to as int)) {
            Some((d, u)) => r matches Some((v, k)) && v@ == d && k == u,
            None => r is None,
        },
{
    let ghost s = b@.subrange(from as int, to as int);
    let total = to - from;
    let mut acc: Vec<u8> = Vec::new();
    let mut p: usize = 0;
    proof {
        assert(s.skip(0) =~= s);
        if let Some((d, n)) = parse_stored(s) {
            assert(acc@ + d =~= d);
        }
    }
    while p < total
        invariant
            from <= to <= b@.len(),
            total == to - from,
            s == b@.subrange(from as int, to as int),
            p <= total,
            match parse_stored(s.skip(p as int)) {
                Some((d, n)) => parse_stored(s) == Some((acc@ + d, (p + n) as nat)),
                None => parse_stored(s) is None,
            },
        decreases total - p,
    {
        let ghost t = s.skip(p as int);
        if total - p < 5 {
            return None;
        }
        let at = from + p;
        let hdr = b[at];
        let len: usize = b[at + 1] as usize + (b[at + 2] as usize) * 256;
        assert(t[0] == hdr && t[1] == b@[at + 1] && t[2] == b@[at + 2]);
        assert(len == read_le16(t, 1));
        if (hdr / 2) % 4 != 0 || 5 + len > total - p {
            return None;
        }
        let ghost before = acc@;
        push_slice(&mut acc, b, at + 5, at + 5 + len);
        assert(b@.subrange(at + 5, at + 5 + len) =~= t.subrange(5, 5 + len));
        if hdr % 2 == 1 {
            return Some((acc, p + 5 + len));
        }
        proof {
            assert(t.skip(5 + len) =~= s.skip(p + 5 + len));
            if let Some((d, n)) = parse_stored(s.skip(p + 5 + len)) {
                assert(before + (t.subrange(5, 5 + len) + d) =~= acc@ + d);
            }
        }
        p = p + 5 + len;
    }
    proof {
        assert(s.skip(p as int).len() == 0);
    }
    None
}

proof fn lemma_row_bounds(row: nat, y: nat, h: nat)
    requires
        y < h,
    ensures
        y * (row + 1) + row + 1 == (y + 1) * (row + 1),
        (y + 1) * (row + 1) <= (row + 1) * h,
{
    assert(y * (row + 1) + row + 1 == (y + 1) * (row + 1)) by (nonlinear_arith);
    assert((y + 1) * (row + 1) <= (row + 1) * h) by (nonlinear_arith)
        requires
            y < h,
    ;
}

/// The pixel bytes of `raw`, or `None` when a row's filter byte is not 0.
fn strip_rows(raw: &Vec<u8>, row: usize, h: usize) -> (r: Option<Vec<u8>>)
    requires
        raw@.len() == (row + 1) * h,
    ensures
        rows_unfiltered(raw@, row as nat, h as nat) ==> (r matches Some(v) && v@ == strip_filters(
            raw@,
            row as nat,
            h as nat,
        )),
        !rows_unfiltered(raw@, row as nat, h as nat) ==> r is None,
{
    let mut out: Vec<u8> = Vec::new();
    let rlen = raw.len();
    let mut y: usize = 0;
    let mut off: usize = 0;
    while y < h
        invariant
            y <= h,
            rlen == raw@.len(),
            raw@.len() == (row + 1) * h,
            off == y * (row + 1),
            out@ == strip_filters(raw@, row as nat, y as nat),
            forall|k: nat| k < y ==> #[trigger] filter_byte(raw@, row as nat, k) == 0,
        decreases h - y,
    {
        proof {
            lemma_row_bounds(row as nat, y as nat, h as nat);
        }
        if raw[off] != 0 {
            assert(filter_byte(raw@, row as nat, y as nat) != 0);
            return None;
        }
        push_slice(&mut out, raw.as_slice(), off + 1, off + row + 1);
        off = off + row + 1;
        y += 1;
        assert(out@ =~= strip_filters(raw@, row as nat, y as nat));
    }
    Some(out)
}

fn err(m: &str) -> (r: Result<(Vec<u8>, u32, u32), String>)
    ensures
        r matches Err(e) && e@ == m@,
{
    Err(m.to_owned())
}

/// Read a PNG file laid out as `encode_png` writes it: its pixels, width
/// and height, or why it is refused.
pub fn decode_png(b: &[u8]) -> (r: Result<(Vec<u8>, u32, u32), String>)
    ensures
        match decode_png_spec(b@) {
            Ok((px, w, h)) => r matches Ok((v, w2, h2)) && v@ == px && w2 == w && h2 == h,
            Err(m) => r matches Err(e) && e@ == m,
        },
{
    let sig: [u8; 8] = [0x89, 0x50, 0x4E, 0x47, 0x0D, 0x0A, 0x1A, 0x0A];
    assert(sig@ =~= signature());
    if b.len() < 57 {
        return err("not a PNG file");
    }
    if !bytes_match(b, 0, &sig) {
        assert(b@.subrange(0, 8) =~= b@.take(8));
        return err("not a PNG file");
    }
    assert(b@.subrange(0, 8) =~= b@.take(8));
    let ihdr_head: [u8; 8] = [0, 0, 0, 13, 0x49, 0x48, 0x44, 0x52];
    let format: [u8; 5] = [8, 6, 0, 0, 0];
    assert(ihdr_head@ =~= be32(13) + ihdr_kind());
    assert(format@ =~= seq![8u8, 6, 0, 0, 0]);
    if !bytes_match(b, 8, &ihdr_head) || !bytes_match(b, 24, &format) {
        return err("only 8-bit RGBA, non-interlaced PNGs are read");
    }
    let w = read_be32_at(b, 16);
    let h = read_be32_at(b, 20);
    let n = read_be32_at(b, 33) as usize;
    let idat_k: [u8; 4] = [0x49, 0x44, 0x41, 0x54];
    assert(idat_k@ =~= idat_kind());
    if !bytes_match(b, 37, &idat_k) || (b.len() as u64) != 57 + (n as u64) {
        return err("unsupported chunk layout");
    }
    let iend_k: [u8; 4] = [0x49, 0x45, 0x4E, 0x44];
    assert(iend_k@ =~= iend_kind());
    let mut iend: Vec<u8> = Vec::new();
    let nothing: [u8; 0] = [];
    assert(nothing@ =~= Seq::<u8>::empty());
    push_chunk(&mut iend, &iend_k, &nothing);
    assert(iend@ =~= chunk(iend_kind(), Seq::empty()));
    if !bytes_match(b, 45 + n, iend.as_slice()) {
        return err("unsupported chunk layout");
    }
    if n < 6 || b[41] != 0x78 || b[42] != 0x01 {
        return err("unsupported zlib stream");
    }
    match parse_stored_exec(b, 43, 37 + n) {
        None => err("only stored deflate blocks are read"),
        Some((raw, used)) => {
            let row: u64 = 4 * (w as u64);
            let size = (row + 1).checked_mul(h as u64);
            let fits = match size {
                Some(t) => t == raw.len() as u64,
                None => false,
            };
            if used != n - 6 || !fits {
                return err("image data does not match its size");
            }
            if h == 0 {
                assert(rows_unfiltered(raw@, 4 * w as nat, h as nat));
                let v: Vec<u8> = Vec::new();
                assert(v@ =~= strip_filters(raw@, 4 * w as nat, h as nat));
                return Ok((v, w, h));
            }
            assert(row + 1 <= (row + 1) * h) by (nonlinear_arith)
                requires
                    h >= 1,
            ;
            match strip_rows(&raw, row as usize, h as usize) {
                None => err("only unfiltered rows are read"),
                Some(v) => Ok((v, w, h)),
            }
        },
    }
}

} // verus!
