use paint_type::brush::{clamp_diameter, BrushTip};

fn tip(d: u32) -> BrushTip {
    let n = (d * d) as usize;
    let mask: Vec<u16> = (0..n).map(|i| 0x3C00 + i as u16).collect();
    BrushTip::from_mask(d, mask).expect("square mask")
}

#[test]
fn brush_tip_sample_oob_is_zero() {
    let t = tip(4);
    assert_eq!(t.sample(4, 0), 0);
    assert_eq!(t.sample(0, 4), 0);
    assert_eq!(t.sample(100, 100), 0);
}

#[test]
fn sample_reads_row_major() {
    let t = tip(3);
    assert_eq!(t.diameter(), 3);
    assert_eq!(t.sample(0, 0), 0x3C00);
    assert_eq!(t.sample(2, 1), 0x3C00 + 5);
    assert_eq!(t.sample(1, 2), 0x3C00 + 7);
}

#[test]
fn from_mask_rejects_bad_shapes() {
    assert!(BrushTip::from_mask(0, vec![]).is_none());
    assert!(BrushTip::from_mask(65, vec![0; 65 * 65]).is_none());
    assert!(BrushTip::from_mask(2, vec![0; 3]).is_none());
    assert!(BrushTip::from_mask(64, vec![0; 4096]).is_some());
}

#[test]
fn diameter_clamps_to_one_tile() {
    assert_eq!(clamp_diameter(0), 1);
    assert_eq!(clamp_diameter(1), 1);
    assert_eq!(clamp_diameter(16), 16);
    assert_eq!(clamp_diameter(1000), 64);
}
