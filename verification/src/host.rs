//! The command and response vocabulary between the editor's UI and its
//! core, and the dirty-rectangle arithmetic the core reports with.

use vstd::prelude::*;
use base64::Engine;
use crate::text::{decimal, u64_to_decimal};

verus! {

/// An axis-aligned rectangle in canvas pixels.
#[derive(Clone, Copy, Debug, PartialEq, Eq, Structural)]
pub struct Rect {
    pub x: u32,
    pub y: u32,
    pub w: u32,
    pub h: u32,
}

/// The smallest rectangle covering both `a` and `b`.
pub open spec fn rect_union(a: Rect, b: Rect) -> Rect {
    let x0 = if a.x <= b.x { a.x } else { b.x };
    let y0 = if a.y <= b.y { a.y } else { b.y };
    let x1 = if a.x + a.w >= b.x + b.w { a.x + a.w } else { b.x + b.w };
    let y1 = if a.y + a.h >= b.y + b.h { a.y + a.h } else { b.y + b.h };
    Rect { x: x0, y: y0, w: (x1 - x0) as u32, h: (y1 - y0) as u32 }
}

/// The far edges of a rectangle fit in `u32`.
pub open spec fn rect_fits(r: Rect) -> bool {
    r.x + r.w <= u32::MAX && r.y + r.h <= u32::MAX
}

/// The smallest rectangle covering both `a` and `b`.
pub fn union(a: Rect, b: Rect) -> (r: Rect)
    requires
        rect_fits(a),
        rect_fits(b),
    ensures
        r == rect_union(a, b),
        rect_fits(r),
{
    let x0 = if a.x <= b.x { a.x } else { b.x };
    let y0 = if a.y <= b.y { a.y } else { b.y };
    let x1 = if a.x + a.w >= b.x + b.w { a.x + a.w } else { b.x + b.w };
    let y1 = if a.y + a.h >= b.y + b.h { a.y + a.h } else { b.y + b.h };
    Rect { x: x0, y: y0, w: x1 - x0, h: y1 - y0 }
}

/// The union covers both rectangles, and is commutative and associative,
/// so the cover of a set of rectangles does not depend on the order in
/// which they are folded together.
pub proof fn law_union_cover_commutative_associative(a: Rect, b: Rect, c: Rect)
    requires
        rect_fits(a),
        rect_fits(b),
        rect_fits(c),
    ensures
        rect_union(a, b) == rect_union(b, a),
        rect_union(rect_union(a, b), c) == rect_union(a, rect_union(b, c)),
        rect_union(a, b).x <= a.x && a.x + a.w <= rect_union(a, b).x + rect_union(a, b).w,
        rect_union(a, b).y <= a.y && a.y + a.h <= rect_union(a, b).y + rect_union(a, b).h,
        rect_union(a, b).x <= b.x && b.x + b.w <= rect_union(a, b).x + rect_union(a, b).w,
        rect_union(a, b).y <= b.y && b.y + b.h <= rect_union(a, b).y + rect_union(a, b).h,
{
}

/// The active painting tool.
#[derive(Clone, Copy, Debug, PartialEq, Eq, Structural)]
pub enum ToolKind {
    Brush,
    Eraser,
    Fill,
}

/// A rectangle of freshly composited pixels the UI must blit.
#[derive(Clone, Debug, PartialEq, Eq)]
pub struct DirtyRect {
    pub x: u32,
    pub y: u32,
    pub w: u32,
    pub h: u32,
    /// Base64 of the `w * h * 4` straight-alpha RGBA8 bytes.
    pub rgba_base64: String,
}

/// A response to the UI.
#[derive(Clone, Debug, PartialEq, Eq)]
pub enum Response {
    /// Acknowledged, no pixels changed.
    Ack,
    /// One dirty rectangle to blit.
    Painted { dirty: DirtyRect },
    /// A file was written.
    Saved { path: String },
    /// An image was opened; the rectangle covers the whole canvas.
    Loaded { dirty: DirtyRect },
    /// Something failed.
    Error { message: String },
}

/// The character of the standard base64 alphabet for a 6-bit value.
pub open spec fn b64_char(v: int) -> char {
    if v < 26 {
        (v + 65) as char
    } else if v < 52 {
        (v - 26 + 97) as char
    } else if v < 62 {
        (v - 52 + 48) as char
    } else if v == 62 {
        '+'
    } else {
        '/'
    }
}

/// Standard base64 with `=` padding: each group of three bytes becomes
/// four characters, a final group of one or two bytes is padded.
pub open spec fn b64_text(b: Seq<u8>) -> Seq<char>
    decreases b.len(),
{
    if b.len() == 0 {
        Seq::empty()
    } else {
        let b0 = b[0] as int;
        let b1 = if b.len() > 1 { b[1] as int } else { 0 };
        let b2 = if b.len() > 2 { b[2] as int } else { 0 };
        if b.len() == 1 {
            seq![b64_char(b0 / 4), b64_char((b0 % 4) * 16), '=', '=']
        } else if b.len() == 2 {
            seq![b64_char(b0 / 4), b64_char((b0 % 4) * 16 + b1 / 16), b64_char((b1 % 16) * 4), '=']
        } else {
            seq![
                b64_char(b0 / 4),
                b64_char((b0 % 4) * 16 + b1 / 16),
                b64_char((b1 % 16) * 4 + b2 / 64),
                b64_char(b2 % 64),
            ] + b64_text(b.skip(3))
        }
    }
}

/// `base64::engine::general_purpose::STANDARD.encode`: the standard,
/// padded base64 text of `data`. Inputs whose encoded length would not
/// fit in memory are left out.
#[verifier::external_body]
fn base64_standard(data: &[u8]) -> (s: String)
    requires
        data@.len() <= usize::MAX / 2,
    ensures
        s@ == b64_text(data@),
{
    base64::engine::general_purpose::STANDARD.encode(data)
}

/// The answer to a stroke: a dirty rectangle with its pixels, or a plain
/// acknowledgement when the stroke changed nothing.
pub fn painted_response(rect: Rect, rgba: &[u8]) -> (r: Response)
    requires
        rgba@.len() <= usize::MAX / 2,
    ensures
        (rect.w == 0 || rect.h == 0) ==> r == Response::Ack,
        (rect.w != 0 && rect.h != 0) ==> (r matches Response::Painted { dirty } && dirty.x == rect.x
            && dirty.y == rect.y && dirty.w == rect.w && dirty.h == rect.h && dirty.rgba_base64@
            == b64_text(rgba@)),
{
    if rect.w == 0 || rect.h == 0 {
        return Response::Ack;
    }
    let rgba_base64 = base64_standard(rgba);
    Response::Painted { dirty: DirtyRect { x: rect.x, y: rect.y, w: rect.w, h: rect.h, rgba_base64 } }
}

/// The answer to opening an image: the whole canvas with its pixels.
pub fn loaded_response(full: Rect, width: u32, height: u32, rgba: &[u8]) -> (r: Response)
    requires
        rgba@.len() <= usize::MAX / 2,
    ensures
        r matches Response::Loaded { dirty } && dirty.x == full.x && dirty.y == full.y && dirty.w
            == width && dirty.h == height && dirty.rgba_base64@ == b64_text(rgba@),
{
    let rgba_base64 = base64_standard(rgba);
    Response::Loaded { dirty: DirtyRect { x: full.x, y: full.y, w: width, h: height, rgba_base64 } }
}

/// The answer to any command before a document exists.
pub fn no_document_response() -> (r: Response)
    ensures
        r matches Response::Error { message } && message@ == "no document; send new_doc first"@,
{
    Response::Error { message: "no document; send new_doc first".to_owned() }
}


/// The largest UI file the host loads unless told otherwise: 10 MiB.
pub const UI_FILE_MAX_BYTES_DEFAULT: u64 = 10485760;

/// Check the size of a UI file before reading it: a file larger than
/// `max_bytes` is refused, naming the file, its size and the limit.
pub fn check_ui_file_size(path: &str, len: u64, max_bytes: u64) -> (r: Result<(), String>)
    ensures
        len <= max_bytes ==> r is Ok,
        len > max_bytes ==> (r matches Err(m) && m@ == path@ + ": file size "@ + decimal(len as nat)
            + " exceeds PT_UI_FILE_MAX_BYTES ("@ + decimal(max_bytes as nat) + ")"@),
{
    if len <= max_bytes {
        return Ok(());
    }
    let mut m = path.to_owned();
    m.append(": file size ");
    m.append(u64_to_decimal(len).as_str());
    m.append(" exceeds PT_UI_FILE_MAX_BYTES (");
    m.append(u64_to_decimal(max_bytes).as_str());
    m.append(")");
    Err(m)
}

} // verus!
