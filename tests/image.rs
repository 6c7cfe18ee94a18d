use sprite_engine::image::{blend, Color, Image};
use sprite_engine::types::{Rect, Vec2i};

fn v(x: i32, y: i32) -> Vec2i {
    Vec2i { x, y }
}

fn rect(x: i32, y: i32, w: i32, h: i32) -> Rect {
    Rect { pos: v(x, y), sz: v(w, h) }
}

fn px(img: &Image, x: i32, y: i32) -> Color {
    img.as_slice()[(y * img.sz.x + x) as usize]
}

fn solid(w: i32, h: i32, c: Color) -> Image {
    let mut img = Image::new(v(w, h));
    img.clear(c);
    img
}

#[test]
fn vec_add_is_componentwise() {
    assert_eq!(v(3, -4).add(v(-1, 10)), v(2, 6));
}

#[test]
fn rect_contains_checks_both_corners() {
    let outer = rect(0, 0, 10, 10);
    assert!(outer.contains(rect(0, 0, 10, 10)));
    assert!(outer.contains(rect(2, 3, 4, 5)));
    assert!(!outer.contains(rect(-1, 0, 3, 3)));
    assert!(!outer.contains(rect(8, 8, 3, 2)));
    assert!(!outer.contains(rect(0, 5, 1, 6)));
}

#[test]
fn rect_move_by_keeps_size() {
    let mut r = rect(1, 2, 3, 4);
    r.move_by(-5, 7);
    assert_eq!(r, rect(-4, 9, 3, 4));
}

#[test]
fn new_image_is_opaque_black() {
    let img = Image::new(v(3, 2));
    assert_eq!(img.size(), (3, 2));
    assert_eq!(img.as_slice().len(), 6);
    assert!(img.as_slice().iter().all(|c| *c == (0, 0, 0, 255)));
}

#[test]
fn empty_image_has_no_pixels() {
    let img = Image::new(v(0, 5));
    assert_eq!(img.as_slice().len(), 0);
}

#[test]
fn clear_sets_every_pixel() {
    let mut img = Image::new(v(4, 3));
    img.clear((1, 2, 3, 4));
    assert!(img.as_slice().iter().all(|c| *c == (1, 2, 3, 4)));
}

#[test]
fn hline_fills_half_open_span() {
    let mut img = Image::new(v(5, 3));
    img.hline(1, 5, 2, (9, 9, 9, 9));
    for y in 0..3 {
        for x in 0..5 {
            let expect = if y == 2 && x >= 1 { (9, 9, 9, 9) } else { (0, 0, 0, 255) };
            assert_eq!(px(&img, x, y), expect);
        }
    }
}

#[test]
fn hline_empty_span_changes_nothing() {
    let mut img = Image::new(v(4, 2));
    img.hline(2, 2, 1, (9, 9, 9, 9));
    assert_eq!(img, Image::new(v(4, 2)));
}

#[test]
fn draw_rect_fills_only_the_rect() {
    let mut img = Image::new(v(6, 5));
    img.draw_rect(&rect(1, 2, 3, 2), (5, 6, 7, 8));
    for y in 0..5 {
        for x in 0..6 {
            let inside = (1..4).contains(&x) && (2..4).contains(&y);
            let expect = if inside { (5, 6, 7, 8) } else { (0, 0, 0, 255) };
            assert_eq!(px(&img, x, y), expect);
        }
    }
}

#[test]
fn blend_rounds_the_destination_share() {
    assert_eq!(blend((100, 50, 0, 128), (200, 200, 200, 255)), (200, 150, 100, 255));
}

#[test]
fn blend_saturates_at_255() {
    assert_eq!(blend((200, 0, 0, 200), (255, 0, 0, 255)), (255, 0, 0, 255));
}

#[test]
fn blend_over_transparent_destination() {
    assert_eq!(blend((10, 20, 30, 40), (0, 0, 0, 0)), (10, 20, 30, 40));
}

#[test]
fn blit_entirely_outside_leaves_destination_unchanged() {
    let src = solid(10, 10, (255, 0, 0, 255));
    let base = solid(8, 6, (1, 2, 3, 255));
    for to in [v(-10, 0), v(8, 0), v(0, -10), v(0, 6), v(-20, -20), v(100, 100)] {
        let mut dst = base.clone();
        dst.bitblt(&src, rect(0, 0, 10, 10), to);
        assert_eq!(dst, base);
    }
}

#[test]
fn blit_opaque_source_replaces_covered_pixels() {
    let mut src = Image::new(v(4, 4));
    for y in 0..4 {
        for x in 0..4 {
            src.hline(x as usize, x as usize + 1, y as usize, (x as u8 * 10, y as u8 * 10, 7, 255));
        }
    }
    let mut dst = solid(6, 6, (50, 60, 70, 128));
    dst.bitblt(&src, rect(1, 1, 3, 2), v(2, 3));
    for y in 0..6 {
        for x in 0..6 {
            let covered = (2..5).contains(&x) && (3..5).contains(&y);
            let expect = if covered { px(&src, x - 1, y - 2) } else { (50, 60, 70, 128) };
            assert_eq!(px(&dst, x, y), expect);
        }
    }
}

#[test]
fn blit_transparent_source_changes_nothing() {
    let src = solid(5, 5, (0, 0, 0, 0));
    let base = solid(4, 4, (11, 22, 33, 200));
    let mut dst = base.clone();
    dst.bitblt(&src, rect(0, 0, 5, 5), v(-1, -1));
    assert_eq!(dst, base);
}

#[test]
fn blit_partial_overlap_clips_top_left() {
    let mut src = Image::new(v(10, 10));
    for y in 0..10 {
        for x in 0..10 {
            src.hline(x as usize, x as usize + 1, y as usize, (x as u8, y as u8, 0, 255));
        }
    }
    let mut dst = solid(20, 20, (0, 0, 0, 0));
    dst.bitblt(&src, rect(0, 0, 10, 10), v(-3, -3));
    for y in 0..20 {
        for x in 0..20 {
            let expect = if x < 7 && y < 7 { ((x + 3) as u8, (y + 3) as u8, 0, 255) } else { (0, 0, 0, 0) };
            assert_eq!(px(&dst, x, y), expect);
        }
    }
}

#[test]
fn blit_partial_overlap_clips_bottom_right() {
    let src = solid(4, 4, (9, 9, 9, 255));
    let mut dst = solid(5, 5, (0, 0, 0, 255));
    dst.bitblt(&src, rect(0, 0, 4, 4), v(3, 2));
    for y in 0..5 {
        for x in 0..5 {
            let expect = if x >= 3 && y >= 2 { (9, 9, 9, 255) } else { (0, 0, 0, 255) };
            assert_eq!(px(&dst, x, y), expect);
        }
    }
}

#[test]
fn blit_half_transparent_mixes() {
    let src = solid(1, 1, (100, 50, 0, 128));
    let mut dst = solid(1, 1, (200, 200, 200, 255));
    dst.bitblt(&src, rect(0, 0, 1, 1), v(0, 0));
    assert_eq!(px(&dst, 0, 0), (200, 150, 100, 255));
}

#[test]
fn blit_zero_sized_source_rect_is_noop() {
    let src = solid(3, 3, (9, 9, 9, 255));
    let base = solid(3, 3, (1, 1, 1, 255));
    let mut dst = base.clone();
    dst.bitblt(&src, rect(1, 1, 0, 2), v(1, 1));
    assert_eq!(dst, base);
}
