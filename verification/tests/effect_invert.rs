use paint_type::plugins::effect::invert_rgb;

#[test]
fn invert_keeps_alpha() {
    assert_eq!(invert_rgb(&[0, 10, 255, 77, 100, 200, 1, 0]), vec![255, 245, 0, 77, 155, 55, 254, 0]);
}

#[test]
fn invert_drops_partial_pixel() {
    assert_eq!(invert_rgb(&[1, 2, 3, 4, 5, 6]), vec![254, 253, 252, 4]);
    assert_eq!(invert_rgb(&[]), Vec::<u8>::new());
}

#[test]
fn invert_twice_is_identity() {
    let px = vec![12, 34, 56, 78, 90, 0, 255, 128];
    assert_eq!(invert_rgb(&invert_rgb(&px)), px);
}
