use friendly_filer::demo::{
    banner_position, draw_banner, draw_enemy_placeholder, draw_floor_grid_rows, draw_horizon,
    draw_row, draw_tron_foreground, framebuffer_size, new_framebuffer, placeholder_box,
};
use friendly_filer::palette::{BG_BLACK, ENEMY_RED, GEOMETRY_GRAY, GRID_BLUE, UI_BLUE};
use termray::{Color, Framebuffer};

fn rgb(c: (u8, u8, u8)) -> Color {
    Color::rgb(c.0, c.1, c.2)
}

fn filled(w: usize, h: usize) -> Framebuffer {
    let mut fb = Framebuffer::new(w, h);
    fb.clear(rgb(BG_BLACK));
    fb
}

fn blue_rows(fb: &Framebuffer) -> Vec<usize> {
    (0..fb.height()).filter(|&y| (0..fb.width()).all(|x| fb.get_pixel(x, y) == rgb(GRID_BLUE))).collect()
}

#[test]
fn floor_rows_widen_toward_horizon() {
    let mut fb = filled(4, 30);
    draw_floor_grid_rows(&mut fb, 10);
    // Rows from the bottom: 29, then strides 2, 3, 4, 5.
    assert_eq!(blue_rows(&fb), vec![15, 20, 24, 27, 29]);
    // Nothing at or above the horizon.
    for y in 0..=10 {
        assert_eq!(fb.get_pixel(0, y), rgb(BG_BLACK));
    }
}

#[test]
fn floor_rows_stride_capped_by_floor_depth() {
    let mut fb = filled(3, 6);
    draw_floor_grid_rows(&mut fb, 3);
    // Floor depth 2: bottom row 5, then stride 2 would reach row 3 (the
    // horizon), so only row 5 is drawn.
    assert_eq!(blue_rows(&fb), vec![5]);
    let mut fb = filled(3, 5);
    draw_floor_grid_rows(&mut fb, 4);
    assert!(blue_rows(&fb).is_empty());
}

#[test]
fn horizon_strip_is_one_blue_row() {
    let mut fb = filled(5, 6);
    draw_horizon(&mut fb, 3);
    assert_eq!(blue_rows(&fb), vec![3]);
    let mut fb = filled(5, 6);
    draw_horizon(&mut fb, 9);
    assert!(blue_rows(&fb).is_empty());
    draw_row(&mut fb, 0, GRID_BLUE);
    assert_eq!(blue_rows(&fb), vec![0]);
}

#[test]
fn enemy_placeholder_is_gray_box_with_red_outline() {
    // 80 x 40 frame, horizon at 20: box 8 wide, 8 tall, base at 25.
    let mut fb = filled(80, 40);
    draw_enemy_placeholder(&mut fb, 20);
    let (x0, x1, top, base) = (36usize, 44usize, 17usize, 25usize);
    for y in 0..40 {
        for x in 0..80 {
            let inside = x >= x0 && x < x1 && y >= top && y < base;
            let outline = inside && (y == top || y == base - 1 || x == x0 || x == x1 - 1);
            let expected = if outline {
                ENEMY_RED
            } else if inside {
                GEOMETRY_GRAY
            } else {
                BG_BLACK
            };
            assert_eq!(fb.get_pixel(x, y), rgb(expected), "pixel ({x}, {y})");
        }
    }
}

#[test]
fn enemy_placeholder_clips_at_the_top() {
    // 10 x 4 frame, horizon 0: base at 1, box 8 tall clipped to the top.
    let mut fb = filled(10, 4);
    draw_enemy_placeholder(&mut fb, 0);
    // x0 = 5 - 3 = 2, x1 = 8; only row 0 is inside and it is outline.
    for x in 0..10 {
        let expected = if (2..8).contains(&x) { ENEMY_RED } else { BG_BLACK };
        assert_eq!(fb.get_pixel(x, 0), rgb(expected));
    }
    for y in 1..4 {
        for x in 0..10 {
            assert_eq!(fb.get_pixel(x, y), rgb(BG_BLACK));
        }
    }
}

#[test]
fn banner_draws_blue_glyphs_near_the_bottom() {
    let mut fb = filled(64, 32);
    draw_banner(&mut fb, "HI");
    // Text 16 px wide, centred: starts at x = 24; y = 32 - 16 = 16.
    let mut blue = 0;
    for y in 0..32 {
        for x in 0..64 {
            let p = fb.get_pixel(x, y);
            if p == rgb(UI_BLUE) {
                blue += 1;
                assert!((24..40).contains(&x) && (16..24).contains(&y), "pixel ({x}, {y})");
            } else {
                assert_eq!(p, rgb(BG_BLACK));
            }
        }
    }
    assert!(blue > 0);
}

#[test]
fn banner_is_clipped_at_the_right_edge() {
    let mut fb = filled(12, 8);
    draw_banner(&mut fb, "MMMM");
    // Wider than the frame: starts at x = 0, y = 0; glyphs at 0 and 8 are
    // drawn (the second one clipped), the one at 16 is not started.
    let any_left = (0..8).any(|x| (0..8).any(|y| fb.get_pixel(x, y) == rgb(UI_BLUE)));
    let any_right = (8..12).any(|x| (0..8).any(|y| fb.get_pixel(x, y) == rgb(UI_BLUE)));
    assert!(any_left && any_right);
}

#[test]
fn empty_framebuffer_is_left_alone() {
    let mut fb = Framebuffer::new(0, 0);
    draw_floor_grid_rows(&mut fb, 0);
    draw_horizon(&mut fb, 0);
    draw_enemy_placeholder(&mut fb, 0);
    draw_banner(&mut fb, "X");
    assert_eq!(fb.width(), 0);
}

#[test]
fn placeholder_box_geometry() {
    assert_eq!(placeholder_box(80, 40, 20), (36, 44, 17, 25));
    assert_eq!(placeholder_box(10, 4, 0), (2, 8, 0, 1));
    // 200 x 100, horizon 50: 20 wide, 20 tall, base at 62.
    assert_eq!(placeholder_box(200, 100, 50), (90, 110, 42, 62));
    // Narrow frame: the box is clipped at the right edge.
    assert_eq!(placeholder_box(4, 40, 20), (0, 4, 17, 25));
}

#[test]
fn banner_position_centres_and_clamps() {
    assert_eq!(banner_position(64, 32, 2, 8, 8), (24, 16));
    assert_eq!(banner_position(65, 32, 2, 8, 8), (24, 16));
    assert_eq!(banner_position(12, 8, 4, 8, 8), (0, 0));
    assert_eq!(banner_position(80, 10, 42, 8, 8), (0, 0));
    assert_eq!(banner_position(400, 48, 42, 8, 8), (32, 32));
}

#[test]
fn banner_skips_characters_without_glyph() {
    let mut fb = filled(64, 32);
    // Tab and e-acute have no glyph: only the cell of 'I' (glyph 1) changes.
    draw_banner(&mut fb, "\tI\u{e9}");
    let start = (64 - 8 * 4) / 2; // four bytes of text
    for y in 0..32 {
        for x in 0..64 {
            let p = fb.get_pixel(x, y);
            if p != rgb(BG_BLACK) {
                assert_eq!(p, rgb(UI_BLUE));
                assert!((start + 8..start + 16).contains(&x) && (16..24).contains(&y), "pixel ({x}, {y})");
            }
        }
    }
}

#[test]
fn new_framebuffer_is_black_and_sized() {
    let fb = new_framebuffer(7, 3).expect("fits");
    assert_eq!(framebuffer_size(&fb), (7, 3));
    for y in 0..3 {
        for x in 0..7 {
            assert_eq!(fb.get_pixel(x, y), Color::rgb(0, 0, 0));
        }
    }
    assert!(new_framebuffer(usize::MAX, 2).is_none());
    assert!(new_framebuffer(usize::MAX, 0).is_some());
}

#[test]
fn foreground_is_horizon_then_box_then_banner() {
    let mut a = filled(80, 40);
    draw_tron_foreground(&mut a, 20, "HI");
    let mut b = filled(80, 40);
    draw_horizon(&mut b, 20);
    draw_enemy_placeholder(&mut b, 20);
    draw_banner(&mut b, "HI");
    for y in 0..40 {
        for x in 0..80 {
            assert_eq!(a.get_pixel(x, y), b.get_pixel(x, y));
        }
    }
    assert_eq!(a.get_pixel(0, 20), rgb(GRID_BLUE));
    assert_eq!(a.get_pixel(37, 20), rgb(GEOMETRY_GRAY));
    assert_eq!(a.get_pixel(36, 18), rgb(ENEMY_RED));
}
