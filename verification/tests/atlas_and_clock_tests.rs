use pixelgrid::clock::Clock;
use pixelgrid::config::{Config, WindowConfig};
use pixelgrid::draw::{copy_entire_sprite, copy_sprite, load_sprites, slice_atlas, Rgba, Sprite};
use pixelgrid::engine::{FrameActions, Lifecycle, Phase, PollInfo};

fn color(r: u8, g: u8, b: u8, a: u8) -> Rgba {
    Rgba::new(r, g, b, a)
}

fn gradient_sprite(w: u32, h: u32) -> Sprite {
    let mut data = Vec::new();
    for y in 0..h {
        for x in 0..w {
            data.push(color(x as u8, y as u8, (x ^ y) as u8, 255));
        }
    }
    Sprite::from_pixels(w, h, data).unwrap()
}

#[test]
fn from_pixels_refuses_wrong_length() {
    let data = vec![color(0, 0, 0, 0); 15];
    assert!(Sprite::from_pixels(4, 4, data).is_none());
    let data = vec![color(0, 0, 0, 0); 16];
    assert!(Sprite::from_pixels(4, 4, data).is_some());
}

#[test]
fn copy_sprite_copies_region_to_target() {
    let from = gradient_sprite(8, 8);
    let mut to = Sprite::new(8, 8);
    // Copy the 2 x 2 region at (4, 4) to target (1, 1).
    copy_sprite(&from, &mut to, (4, 4, 2, 2), (1, 1));
    for oy in 0..2 {
        for ox in 0..2 {
            assert_eq!(
                to.data[((1 + ox) + (1 + oy) * 8) as usize],
                from.data[((4 + ox) + (4 + oy) * 8) as usize]
            );
        }
    }
    assert_eq!(to.data[0], color(0, 0, 0, 0));
    assert_eq!(to.data[(3 + 3 * 8) as usize], color(0, 0, 0, 0));
}

#[test]
fn copy_sprite_clips_outside_source_and_destination() {
    let from = gradient_sprite(4, 4);
    let mut to = Sprite::new(4, 4);
    // The region overhangs the source; the overhang is skipped.
    copy_sprite(&from, &mut to, (2, 2, 4, 4), (0, 0));
    for oy in 0..2 {
        for ox in 0..2 {
            assert_eq!(
                to.data[(ox + oy * 4) as usize],
                from.data[((2 + ox) + (2 + oy) * 4) as usize]
            );
        }
    }
    // Destination pixels the clipped region does not reach stay zero.
    assert_eq!(to.data[(3 + 0 * 4) as usize], color(0, 0, 0, 0));
    assert_eq!(to.data[(0 + 3 * 4) as usize], color(0, 0, 0, 0));
}

#[test]
fn copy_entire_sprite_places_whole_source() {
    let from = gradient_sprite(3, 3);
    let mut to = Sprite::new(8, 8);
    copy_entire_sprite(&from, &mut to, (2, 5));
    for oy in 0..3 {
        for ox in 0..3 {
            assert_eq!(
                to.data[((2 + ox) + (5 + oy) * 8) as usize],
                from.data[(ox + oy * 3) as usize]
            );
        }
    }
}

#[test]
fn slice_atlas_cuts_grid_of_tiles() {
    let atlas = gradient_sprite(32, 16);
    let g = slice_atlas(&atlas, 16, 16);
    assert_eq!(g.cols, 2);
    assert_eq!(g.rows, 1);
    assert_eq!(g.tiles.len(), 2);
    let left = g.get(0, 0).unwrap();
    let right = g.get(1, 0).unwrap();
    for y in 0..16 {
        for x in 0..16 {
            assert_eq!(left.data[(x + y * 16) as usize], atlas.data[(x + y * 32) as usize]);
            assert_eq!(
                right.data[(x + y * 16) as usize],
                atlas.data[((16 + x) + y * 32) as usize]
            );
        }
    }
    assert!(g.get(2, 0).is_none());
    assert!(g.get(0, 1).is_none());
}

#[test]
fn slice_atlas_truncates_partial_tiles() {
    // 20 x 18 atlas with 16 x 16 tiles: the trailing 4-pixel column and
    // 2-pixel row are deliberately truncated.
    let atlas = gradient_sprite(20, 18);
    let g = slice_atlas(&atlas, 16, 16);
    assert_eq!(g.cols, 1);
    assert_eq!(g.rows, 1);
    assert_eq!(g.tiles.len(), 1);
}

#[test]
fn slice_atlas_smaller_than_one_tile_is_empty() {
    let atlas = gradient_sprite(8, 8);
    let g = slice_atlas(&atlas, 16, 16);
    assert_eq!(g.cols, 0);
    assert_eq!(g.rows, 0);
    assert_eq!(g.tiles.len(), 0);
    assert!(g.get(0, 0).is_none());
}

#[test]
fn sprite_at_reads_the_grid() {
    let s = gradient_sprite(8, 8);
    assert_eq!(s.at(3, 5), Rgba::new(3, 5, 3 ^ 5, 255));
    assert_eq!(s.at(0, 0), Rgba::new(0, 0, 0, 255));
}

fn atlas_png_bytes(w: u32, h: u32) -> Vec<u8> {
    let img = image::RgbaImage::from_fn(w, h, |x, y| {
        image::Rgba([x as u8, y as u8, (x * 3 + y) as u8, 255])
    });
    let mut bytes = std::io::Cursor::new(Vec::new());
    img.write_to(&mut bytes, image::ImageOutputFormat::Png).unwrap();
    bytes.into_inner()
}

#[test]
fn load_sprites_decodes_and_slices_atlas() {
    let bytes = atlas_png_bytes(32, 16);
    let g = load_sprites(&bytes).unwrap();
    assert_eq!(g.cols, 2);
    assert_eq!(g.rows, 1);
    assert_eq!(g.tile_width, 16);
    assert_eq!(g.tile_height, 16);
    let left = g.get(0, 0).unwrap();
    let right = g.get(1, 0).unwrap();
    for y in 0..16u32 {
        for x in 0..16u32 {
            let expect_left = color(x as u8, y as u8, (x * 3 + y) as u8, 255);
            let expect_right = color((16 + x) as u8, y as u8, ((16 + x) * 3 + y) as u8, 255);
            assert_eq!(left.data[(x + y * 16) as usize], expect_left);
            assert_eq!(right.data[(x + y * 16) as usize], expect_right);
        }
    }
}

#[test]
fn load_sprites_refuses_undecodable_bytes() {
    assert!(load_sprites(&Vec::new()).is_none());
    assert!(load_sprites(&vec![1, 2, 3, 4, 5]).is_none());
}

#[test]
fn window_config_default_is_documented_fallback() {
    let w = WindowConfig::default();
    assert_eq!(w.width, 256);
    assert_eq!(w.height, 256);
    assert!(!w.fullscreen);
    assert!(!w.resizable);
    let c = Config::default();
    assert_eq!(c.window, w);
}

#[test]
fn clock_reports_zero_before_first_tick() {
    let c = Clock::new();
    assert_eq!(c.dt(), 0);
    assert_eq!(c.fps(), 0);
}

#[test]
fn clock_tick_measures_positive_delta_and_fps_matches() {
    let mut c = Clock::new();
    c.tick();
    let start = std::time::Instant::now();
    while start.elapsed().as_millis() < 5 {}
    c.tick();
    let dt = c.dt();
    assert!(dt > 0, "two ticks with a real gap must measure a positive delta");
    assert_eq!(c.fps(), 1_000_000_000 / dt);
    assert!(c.since_start() > 0);
}

#[test]
fn lifecycle_runs_hooks_in_order_and_stops_once() {
    let mut l = Lifecycle::new();
    assert_eq!(l.phase, Phase::Starting);
    l.begin();
    assert_eq!(l.phase, Phase::Running);

    let quiet = PollInfo {
        input_ready: false,
        resized: None,
        redraw_requested: false,
        close_requested: false,
    };
    let a: FrameActions = l.step(&quiet);
    assert_eq!(a.resize_surface, None);
    assert!(!a.tick_and_input);
    assert!(!a.draw_and_present);
    assert!(!a.end_and_stop);
    assert!(a.request_redraw);
    assert_eq!(l.phase, Phase::Running);

    let busy = PollInfo {
        input_ready: true,
        resized: Some((512, 384)),
        redraw_requested: true,
        close_requested: false,
    };
    let a = l.step(&busy);
    assert_eq!(a.resize_surface, Some((512, 384)));
    assert!(a.tick_and_input);
    assert!(a.draw_and_present);
    assert!(!a.end_and_stop);

    let closing = PollInfo {
        input_ready: false,
        resized: Some((1, 1)),
        redraw_requested: false,
        close_requested: true,
    };
    let a = l.step(&closing);
    // A resize reported without new input is not acted on.
    assert_eq!(a.resize_surface, None);
    assert!(a.end_and_stop);
    assert_eq!(l.phase, Phase::Ending);
    l.finish();
    assert_eq!(l.phase, Phase::Stopped);
}
