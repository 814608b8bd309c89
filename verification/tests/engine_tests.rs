use pixelgrid::config::Config;
use pixelgrid::draw::Rgba;
use pixelgrid::engine::Engine;

fn fb_at(e: &Engine, x: u32, y: u32) -> Rgba {
    e.fb[(x as usize) + (y as usize) * (e.width as usize)]
}

fn color(r: u8, g: u8, b: u8, a: u8) -> Rgba {
    Rgba::new(r, g, b, a)
}

#[test]
fn fresh_engine_is_zeroed() {
    let e = Engine::new(Config::default());
    assert_eq!(e.width, 256);
    assert_eq!(e.height, 256);
    assert_eq!(e.eye, (0, 0));
    assert_eq!(e.fb.len(), 256 * 256);
    for px in &e.fb {
        assert_eq!(*px, color(0, 0, 0, 0));
    }
}

#[test]
fn world_to_screen_in_bounds_is_sum() {
    let mut e = Engine::new(Config::default());
    e.eye = (7, 9);
    assert_eq!(e.world_to_screen((3, 4)), Some((10, 13)));
    assert_eq!(e.world_to_screen((-7, -9)), Some((0, 0)));
    assert_eq!(e.world_to_screen((248, 246)), Some((255, 255)));
}

#[test]
fn world_to_screen_negative_component_is_none() {
    let mut e = Engine::new(Config::default());
    e.eye = (5, 5);
    assert_eq!(e.world_to_screen((-6, 0)), None);
    assert_eq!(e.world_to_screen((0, -6)), None);
    assert_eq!(e.world_to_screen((-6, -6)), None);
}

#[test]
fn pixel_off_screen_leaves_framebuffer_unmodified() {
    let mut e = Engine::new(Config::default());
    e.clear(color(9, 9, 9, 255));
    let before = e.fb.clone();
    e.pixel(color(1, 2, 3, 4), (-1, 0));
    e.pixel(color(1, 2, 3, 4), (0, -1));
    assert_eq!(e.fb, before);
}

#[test]
fn pixel_applies_camera_offset() {
    let mut e = Engine::new(Config::default());
    e.eye = (10, 20);
    let c = color(1, 2, 3, 255);
    e.pixel(c, (5, 6));
    assert_eq!(fb_at(&e, 15, 26), c);
    assert_eq!(fb_at(&e, 5, 6), color(0, 0, 0, 0));
}

#[test]
fn pixel_direct_out_of_bounds_is_dropped() {
    let mut e = Engine::new(Config::default());
    let before = e.fb.clone();
    // Just past the right edge: must neither panic nor wrap to the next row.
    e.pixel_direct(color(255, 0, 0, 255), (256, 0));
    e.pixel_direct(color(255, 0, 0, 255), (0, 256));
    e.pixel_direct(color(255, 0, 0, 255), (u32::MAX, u32::MAX));
    assert_eq!(e.fb, before);
}

#[test]
fn clear_overwrites_every_pixel() {
    let mut e = Engine::new(Config::default());
    let c = color(12, 34, 56, 78);
    e.clear(c);
    for y in 0..256 {
        for x in 0..256 {
            assert_eq!(fb_at(&e, x, y), c);
        }
    }
}

fn checker_sprite(w: u32, h: u32) -> pixelgrid::draw::Sprite {
    let mut data = Vec::new();
    for y in 0..h {
        for x in 0..w {
            data.push(color((x + 1) as u8, (y + 1) as u8, (x * y) as u8, 255));
        }
    }
    pixelgrid::draw::Sprite::from_pixels(w, h, data).unwrap()
}

#[test]
fn sprite_direct_reproduces_sprite_in_bounds() {
    let mut e = Engine::new(Config::default());
    let s = checker_sprite(16, 16);
    e.sprite_direct(&s, (40, 50));
    for y in 0..16 {
        for x in 0..16 {
            assert_eq!(fb_at(&e, 40 + x, 50 + y), s.data[(x + y * 16) as usize]);
        }
    }
    // A pixel just outside the footprint stays untouched.
    assert_eq!(fb_at(&e, 39, 50), color(0, 0, 0, 0));
    assert_eq!(fb_at(&e, 56, 50), color(0, 0, 0, 0));
}

#[test]
fn sprite_direct_straddling_right_edge_clips() {
    let mut e = Engine::new(Config::default());
    e.clear(color(7, 7, 7, 255));
    let s = checker_sprite(16, 16);
    e.sprite_direct(&s, (255, 10));
    // Only the sprite's first column is on screen.
    for y in 0..16 {
        assert_eq!(fb_at(&e, 255, 10 + y), s.data[(y * 16) as usize]);
    }
    // Nothing wrapped to the next row's left edge.
    for y in 10..27 {
        assert_eq!(fb_at(&e, 0, y), color(7, 7, 7, 255));
        assert_eq!(fb_at(&e, 1, y), color(7, 7, 7, 255));
    }
}

#[test]
fn sprite_world_straddles_origin_pixel_by_pixel() {
    let mut e = Engine::new(Config::default());
    e.clear(color(1, 1, 1, 255));
    let s = checker_sprite(16, 16);
    // Corner at (-8, -3): only the lower-right 8 x 13 part is visible.
    e.sprite(&s, (-8, -3));
    for y in 0..13 {
        for x in 0..8 {
            assert_eq!(
                fb_at(&e, x, y),
                s.data[((x + 8) + (y + 3) * 16) as usize],
                "visible part at ({x},{y})"
            );
        }
    }
    assert_eq!(fb_at(&e, 8, 0), color(1, 1, 1, 255));
    assert_eq!(fb_at(&e, 0, 13), color(1, 1, 1, 255));
}

#[test]
fn look_then_world_to_screen_centers_origin() {
    let mut e = Engine::new(Config::default());
    e.look((0, 0));
    assert_eq!(e.eye, (128, 128));
    assert_eq!(e.world_to_screen((0, 0)), Some((128, 128)));
}

#[test]
fn look_adds_half_extent_to_position() {
    let mut e = Engine::new(Config::default());
    e.look((10, 20));
    assert_eq!(e.eye, (138, 148));
    // The specified arithmetic adds the position, so the looked-at point
    // itself maps to twice its coordinate plus the centre.
    assert_eq!(e.world_to_screen((10, 20)), Some((148, 168)));
}
