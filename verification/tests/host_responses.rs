use paint_type::host::{
    check_ui_file_size, loaded_response, no_document_response, painted_response, union, Rect, Response,
    UI_FILE_MAX_BYTES_DEFAULT,
};

fn rect(x: u32, y: u32, w: u32, h: u32) -> Rect {
    Rect { x, y, w, h }
}

#[test]
fn painted_response_encodes_pixels_in_base64() {
    match painted_response(rect(3, 4, 1, 1), &[1, 2, 3, 4]) {
        Response::Painted { dirty } => {
            assert_eq!((dirty.x, dirty.y, dirty.w, dirty.h), (3, 4, 1, 1));
            assert_eq!(dirty.rgba_base64, "AQIDBA==");
        }
        other => panic!("unexpected {other:?}"),
    }
}

#[test]
fn painted_response_pads_two_trailing_bytes() {
    match painted_response(rect(0, 0, 2, 1), &[255, 0, 128, 7, 9]) {
        Response::Painted { dirty } => assert_eq!(dirty.rgba_base64, "/wCABwk="),
        other => panic!("unexpected {other:?}"),
    }
}

#[test]
fn empty_stroke_is_acknowledged() {
    assert_eq!(painted_response(rect(5, 5, 0, 3), &[]), Response::Ack);
    assert_eq!(painted_response(rect(5, 5, 3, 0), &[1, 2, 3]), Response::Ack);
}

#[test]
fn loaded_response_covers_the_canvas() {
    match loaded_response(rect(0, 0, 2, 2), 2, 2, b"abc") {
        Response::Loaded { dirty } => {
            assert_eq!((dirty.x, dirty.y, dirty.w, dirty.h), (0, 0, 2, 2));
            assert_eq!(dirty.rgba_base64, "YWJj");
        }
        other => panic!("unexpected {other:?}"),
    }
}

#[test]
fn no_document_is_an_error() {
    assert_eq!(
        no_document_response(),
        Response::Error { message: "no document; send new_doc first".to_string() }
    );
}

#[test]
fn union_covers_both_and_commutes() {
    let a = rect(10, 10, 5, 5);
    let b = rect(2, 12, 4, 10);
    let u = union(a, b);
    assert_eq!(u, rect(2, 10, 13, 12));
    assert_eq!(union(b, a), u);
    let c = rect(40, 0, 1, 1);
    assert_eq!(union(union(a, b), c), union(a, union(b, c)));
}

#[test]
fn ui_file_size_is_capped() {
    assert_eq!(UI_FILE_MAX_BYTES_DEFAULT, 10 * 1024 * 1024);
    assert!(check_ui_file_size("ui.html", 10, 10).is_ok());
    assert_eq!(
        check_ui_file_size("ui.html", 11, 10).unwrap_err(),
        "ui.html: file size 11 exceeds PT_UI_FILE_MAX_BYTES (10)"
    );
}
