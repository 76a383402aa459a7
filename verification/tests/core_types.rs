use paint_type::host::{union, Rect};
use paint_type::tile::{TileCoord, TileError};

#[test]
fn tile_error_codes_and_messages() {
    assert_eq!(TileError::from_code(2), TileError::InvalidParam);
    assert_eq!(TileError::from_code(3), TileError::Busy);
    assert_eq!(TileError::from_code(1), TileError::LibError);
    assert_eq!(TileError::from_code(99), TileError::LibError);
    assert_eq!(TileError::InvalidParam.message(), "invalid parameter");
    assert_eq!(TileError::LibError.message(), "libpt error");
    assert_eq!(TileError::Busy.message(), "libpt busy");
}

#[test]
fn tile_coord_holds_its_position() {
    let c = TileCoord::new(3, 9);
    assert_eq!((c.x, c.y), (3, 9));
}

#[test]
fn rect_union_covers_both() {
    let a = Rect { x: 2, y: 3, w: 4, h: 5 };
    let b = Rect { x: 10, y: 1, w: 1, h: 1 };
    assert_eq!(union(a, b), Rect { x: 2, y: 1, w: 9, h: 7 });
    assert_eq!(union(b, a), union(a, b));
    let c = Rect { x: 0, y: 20, w: 1, h: 1 };
    assert_eq!(union(union(a, b), c), union(a, union(b, c)));
}
