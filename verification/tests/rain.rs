//! Behavioural tests for the digital-rain library: session lifecycle,
//! the per-tick update rule, trail layout, resize pruning, and the palette.

use digital_rain::drops::{trail_cells, Droplet};
use digital_rain::palette::shade_color;
use digital_rain::session::Session;

#[test]
fn empty_after_init() {
    let s = Session::new(10, 20);
    assert_eq!(s.drop_count(), 0);
    assert_eq!(s.width(), 10);
    assert_eq!(s.height(), 20);
}

#[test]
fn one_tick_from_empty() {
    let mut s = Session::new(10, 20);
    let cells = s.tick();
    assert_eq!(s.drop_count(), 1);
    let d = s.drop_at(0);
    assert_eq!(d.y, 0);
    assert!(d.x < 10);
    // The drop spawned by a tick is drawn from the next tick on.
    assert!(cells.is_empty());
}

#[test]
fn second_tick_draws_head() {
    let mut s = Session::new(10, 20);
    s.tick();
    let x0 = s.drop_at(0).x;
    let cells = s.tick();
    assert_eq!(s.drop_count(), 2);
    assert_eq!(s.drop_at(0).y, 1);
    assert_eq!(s.drop_at(0).x, x0);
    // At head row 1 only offset 0 is visible: one glyph, brightest shade.
    assert_eq!(cells.len(), 1);
    assert_eq!(cells[0].x, x0);
    assert_eq!(cells[0].y, 1);
    assert_eq!(cells[0].shade, 0);
    assert!(cells[0].glyph == '0' || cells[0].glyph == '1');
}

#[test]
fn cap_never_exceeded() {
    let mut s = Session::new(2, 30);
    for _ in 0..200 {
        s.tick();
        assert!(s.drop_count() <= 4);
    }
    // The cap is actually reached and then held.
    assert_eq!(s.drop_count(), 4);
}

#[test]
fn reset_wraparound_after_fall() {
    // Width 1 pins every column choice to 0; height 0 gives wrap limit 16.
    let mut s = Session::new(1, 0);
    s.tick();
    assert_eq!(s.drop_at(0).y, 0);
    // Each further tick moves the first drop one row down...
    for t in 2..=18 {
        s.tick();
        assert_eq!(s.drop_at(0).x, 0);
        assert_eq!(s.drop_at(0).y, t - 1);
    }
    // ...until its head sits one past the wrap limit (row 17), and the next
    // tick recycles it: reset to the top row, then incremented to row 1.
    assert_eq!(s.drop_at(0).y, 17);
    s.tick();
    assert_eq!(s.drop_at(0).y, 1);
    assert_eq!(s.drop_at(0).x, 0);
}

#[test]
fn third_tick_stride_skips_head_below_grid() {
    // Height 0: a head at row 2 is below the grid, but the offset-1 segment
    // two rows up lands on row 0 and is drawn.
    let mut s = Session::new(1, 0);
    s.tick();
    let c1 = s.tick();
    assert!(c1.is_empty());
    let c2 = s.tick();
    assert_eq!(c2.len(), 1);
    assert_eq!((c2[0].x, c2[0].y, c2[0].shade), (0, 0, 1));
}

#[test]
fn trail_offsets_skip_underflow() {
    let mut rng = rand::thread_rng();
    let cells = trail_cells(Droplet { x: 3, y: 5 }, 20, &mut rng);
    // Only offsets whose row would not go negative are drawn: 0, 1, 2.
    assert_eq!(cells.len(), 3);
    let keys: Vec<(u16, u16, u8)> = cells.iter().map(|c| (c.x, c.y, c.shade)).collect();
    assert_eq!(keys, vec![(3, 5, 0), (3, 3, 1), (3, 1, 2)]);
    for c in &cells {
        assert!(c.glyph == '0' || c.glyph == '1');
    }
}

#[test]
fn trail_clips_below_bottom() {
    let mut rng = rand::thread_rng();
    let cells = trail_cells(Droplet { x: 0, y: 30 }, 20, &mut rng);
    // Offsets 0..=4 sit below row 20 and are skipped; 5, 6, 7 are drawn.
    let keys: Vec<(u16, u16, u8)> = cells.iter().map(|c| (c.x, c.y, c.shade)).collect();
    assert_eq!(keys, vec![(0, 20, 5), (0, 18, 6), (0, 16, 7)]);
}

#[test]
fn palette_fades() {
    assert_eq!(shade_color(0), (100, 250, 100));
    assert_eq!(shade_color(9), (10, 25, 10));
    let mut prev_green = 251;
    for k in 0..10 {
        let (r, g, b) = shade_color(k);
        assert!(g < prev_green);
        prev_green = g;
        assert_eq!(r, b);
    }
}

#[test]
fn glyphs_are_binary_and_cells_in_grid() {
    let mut s = Session::new(4, 10);
    for _ in 0..50 {
        let cells = s.tick();
        for c in &cells {
            assert!(c.glyph == '0' || c.glyph == '1');
            assert!(c.shade < 10);
            assert!(c.x < 4);
            assert!(c.y <= 10);
        }
    }
}

#[test]
fn resize_prunes_out_of_bounds() {
    let mut s = Session::new(5, 30);
    for _ in 0..60 {
        s.tick();
    }
    let before = s.drop_count();
    s.resize(3, 5);
    assert_eq!(s.width(), 3);
    assert_eq!(s.height(), 5);
    assert!(s.drop_count() <= before);
    for i in 0..s.drop_count() {
        let d = s.drop_at(i);
        assert!(d.x < 3);
        assert!(d.y < 5 + 10);
        assert!(d.y < 5 + 2 * 8 + 1);
    }
}

#[test]
fn resize_to_zero_width_clears() {
    let mut s = Session::new(6, 20);
    for _ in 0..10 {
        s.tick();
    }
    s.resize(0, 20);
    assert_eq!(s.drop_count(), 0);
    // With no columns the cap is zero, so a tick spawns nothing.
    let cells = s.tick();
    assert_eq!(s.drop_count(), 0);
    assert!(cells.is_empty());
}
