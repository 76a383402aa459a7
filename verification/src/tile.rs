//! Tile-level vocabulary of the compute core: tile geometry, the errors
//! the native tile library reports, and tile and layer identifiers.

use vstd::prelude::*;

verus! {

/// Tile edge length in pixels.
pub const TILE_SIZE: u32 = 64;

/// Channels per pixel (RGBA16F).
pub const TILE_CHANNELS: u32 = 4;

/// Bytes in a tile's pixel buffer (`64 * 64 * 4 * 2`).
pub const TILE_PIXEL_BYTES: usize = 32768;

/// Errors the safe tile wrappers report.
#[derive(Clone, Copy, Debug, PartialEq, Eq, Structural)]
pub enum TileError {
    /// The native library rejected the inputs.
    InvalidParam,
    /// The native library reported a generic error.
    LibError,
    /// The native library was busy.
    Busy,
}

/// The error for a native result code: 2 is an invalid parameter, 3 is
/// busy, anything else a generic error.
pub open spec fn tile_error_of(code: u32) -> TileError {
    if code == 2 {
        TileError::InvalidParam
    } else if code == 3 {
        TileError::Busy
    } else {
        TileError::LibError
    }
}

impl TileError {
    /// The error for a native result code.
    pub fn from_code(code: u32) -> (e: TileError)
        ensures
            e == tile_error_of(code),
    {
        match code {
            2 => TileError::InvalidParam,
            3 => TileError::Busy,
            _ => TileError::LibError,
        }
    }

    /// A short static description.
    pub fn message(self) -> (s: &'static str)
        ensures
            self == TileError::InvalidParam ==> s@ == "invalid parameter"@,
            self == TileError::LibError ==> s@ == "libpt error"@,
            self == TileError::Busy ==> s@ == "libpt busy"@,
    {
        match self {
            TileError::InvalidParam => "invalid parameter",
            TileError::LibError => "libpt error",
            TileError::Busy => "libpt busy",
        }
    }
}

/// Position of a tile in the canvas grid, in tile units.
#[derive(Clone, Copy, Debug, PartialEq, Eq, Structural, Hash)]
pub struct TileCoord {
    /// Horizontal tile index.
    pub x: u32,
    /// Vertical tile index.
    pub y: u32,
}

impl TileCoord {
    /// The coordinate `(x, y)`.
    pub fn new(x: u32, y: u32) -> (c: TileCoord)
        ensures
            c.x == x && c.y == y,
    {
        TileCoord { x, y }
    }
}

/// Stable identifier of a layer within a layer stack; never reused.
#[derive(Clone, Copy, Debug, PartialEq, Eq, Structural, Hash, PartialOrd, Ord)]
pub struct LayerId(u32);

impl LayerId {
    /// The identifier with number `n`.
    pub fn from_u32(n: u32) -> (id: LayerId)
        ensures
            id.as_u32_spec() == n,
    {
        LayerId(n)
    }

    pub closed spec fn as_u32_spec(self) -> u32 {
        self.0
    }

    /// The underlying number.
    pub fn as_u32(self) -> (n: u32)
        ensures
            n == self.as_u32_spec(),
    {
        self.0
    }
}

/// Errors of layer stack operations.
#[derive(Clone, Copy, Debug, PartialEq, Eq, Structural)]
pub enum LayerStackError {
    /// No layer with the given id is present.
    UnknownLayer,
    /// A position at or past the stack's length.
    PositionOutOfBounds,
    /// An underlying tile operation failed.
    Tile(TileError),
}

} // verus!
