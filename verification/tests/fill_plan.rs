use paint_type::fill::{colours_match, dirty_rect, fill_region, pixel_offsets_in_tile, plan_fill, touched_tiles};
use paint_type::host::Rect;

fn canvas(w: u32, h: u32, f: impl Fn(u32, u32) -> [u8; 4]) -> Vec<[u8; 4]> {
    let mut v = Vec::new();
    for y in 0..h {
        for x in 0..w {
            v.push(f(x, y));
        }
    }
    v
}

#[test]
fn fill_uniform_canvas_covers_everything() {
    let c = canvas(5, 4, |_, _| [10, 20, 30, 255]);
    let plan = plan_fill(5, 4, 2, 1, &c);
    assert_eq!(plan.pixels.len(), 20);
    assert_eq!(plan.pixels[0], (2, 1));
    assert_eq!(plan.tiles, vec![(0, 0)]);
    assert_eq!(plan.dirty, Rect { x: 0, y: 0, w: 5, h: 4 });
}

#[test]
fn fill_stops_at_a_wall() {
    // A vertical wall of a different colour at x == 2.
    let c = canvas(5, 3, |x, _| if x == 2 { [0, 0, 0, 255] } else { [255, 255, 255, 255] });
    let mut px = fill_region(5, 3, 0, 0, &c);
    px.sort();
    let expected: Vec<(u32, u32)> = vec![(0, 0), (0, 1), (0, 2), (1, 0), (1, 1), (1, 2)];
    assert_eq!(px, expected);
}

#[test]
fn fill_tolerance_is_two_per_channel() {
    let c = canvas(3, 1, |x, _| match x {
        0 => [100, 100, 100, 100],
        1 => [102, 98, 100, 101],
        _ => [103, 100, 100, 100],
    });
    let px = fill_region(3, 1, 0, 0, &c);
    assert_eq!(px, vec![(0, 0), (1, 0)]);
    assert!(colours_match([0, 0, 0, 0], [2, 2, 2, 2]));
    assert!(!colours_match([0, 0, 0, 0], [0, 0, 3, 0]));
    assert!(colours_match([255, 1, 0, 9], [253, 3, 2, 7]));
}

#[test]
fn fill_seed_is_clamped_onto_the_canvas() {
    let c = canvas(4, 4, |_, _| [1, 1, 1, 1]);
    let px = fill_region(4, 4, 100, 100, &c);
    assert_eq!(px[0], (3, 3));
    assert_eq!(px.len(), 16);
}

#[test]
fn fill_on_an_empty_canvas_colours_only_the_seed() {
    let plan = plan_fill(0, 0, 5, 5, &Vec::new());
    assert_eq!(plan.pixels, vec![(0, 0)]);
    assert_eq!(plan.tiles, vec![(0, 0)]);
    assert_eq!(plan.dirty, Rect { x: 0, y: 0, w: 0, h: 0 });
}

#[test]
fn fill_visits_in_breadth_first_order() {
    let c = canvas(3, 3, |_, _| [0, 0, 0, 0]);
    let px = fill_region(3, 3, 1, 1, &c);
    // Seed, then its left, right, up and down neighbours.
    assert_eq!(&px[..5], &[(1, 1), (0, 1), (2, 1), (1, 0), (1, 2)]);
}

#[test]
fn tiles_and_dirty_rect_across_tile_borders() {
    let px = vec![(63, 0), (64, 0), (65, 0), (0, 70)];
    let tiles = touched_tiles(&px);
    assert_eq!(tiles, vec![(0, 0), (1, 0), (0, 1)]);
    assert_eq!(dirty_rect(100, 100, &tiles), Rect { x: 0, y: 0, w: 100, h: 100 });
    assert_eq!(dirty_rect(70, 64, &tiles), Rect { x: 0, y: 0, w: 70, h: 64 });
    assert_eq!(dirty_rect(10, 10, &vec![(3, 3)]), Rect { x: 0, y: 0, w: 0, h: 0 });
}

#[test]
fn offsets_locate_pixels_within_their_tile() {
    let pixels = vec![(0, 0), (65, 1), (1, 0), (127, 63), (64, 64)];
    assert_eq!(pixel_offsets_in_tile(&pixels, 0, 0), vec![0, 4]);
    assert_eq!(pixel_offsets_in_tile(&pixels, 1, 0), vec![(64 + 1) * 4, (63 * 64 + 63) * 4]);
    assert_eq!(pixel_offsets_in_tile(&pixels, 1, 1), vec![0]);
    assert!(pixel_offsets_in_tile(&pixels, 2, 0).is_empty());
}
