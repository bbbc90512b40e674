//! The burst lifecycle: creation ranges, exact motion steps, the life
//! countdown, the inert spent state, the frame-rate gate, and the clamp at
//! the screen edge.

use fireworks::explosion::Explosion;
use fireworks::pixel::{Color, Pixel, ScreenPos};

fn pix(x: u16, y: u16) -> Pixel {
    Pixel {
        glyph: '*',
        pos: ScreenPos { x, y },
        fg: Some(Color { r: 200, g: 40, b: 10 }),
        bg: None,
    }
}

fn burst(particles: Vec<(Pixel, ScreenPos)>, life: u8) -> Explosion {
    Explosion {
        origin: ScreenPos { x: 5, y: 5 },
        pixels: particles,
        speed: 1,
        speed_target: 0,
        life,
    }
}

#[test]
fn new_burst_ranges() {
    let mut rng = rand::thread_rng();
    let origin = ScreenPos { x: 40, y: 12 };
    for _ in 0..100 {
        let e = Explosion::new(origin, &mut rng);
        assert!(3 <= e.pixels.len() && e.pixels.len() < 10);
        assert!(2 <= e.life && e.life < 7);
        assert_eq!(e.speed, 1);
        assert_eq!(e.speed_target, 0);
        assert_eq!(e.origin, origin);
        for (p, t) in &e.pixels {
            assert_eq!(p.glyph, '*');
            assert_eq!(p.pos, origin);
            assert!(p.fg.is_some());
            assert!(p.bg.is_none());
            let dx = t.x as i64 - 40;
            let dy = t.y as i64 - 12;
            assert!(dx.abs() <= 10 && dy.abs() <= 10);
            assert!(dx * dx + dy * dy <= 200);
        }
    }
}

#[test]
fn motion_step_exact() {
    let mut e = burst(
        vec![
            (pix(5, 5), ScreenPos { x: 8, y: 5 }),
            (pix(5, 5), ScreenPos { x: 8, y: 9 }),
            (pix(5, 5), ScreenPos { x: 2, y: 5 }),
        ],
        3,
    );
    e.fly(20);
    assert_eq!(e.life, 2);
    assert_eq!(e.speed_target, 0);
    // Short of the target on x with y aligned: truncation pulls x down.
    assert_eq!(e.pixels[0].0.pos, ScreenPos { x: 4, y: 5 });
    // Short of the target on both axes: a diagonal step down-left.
    assert_eq!(e.pixels[1].0.pos, ScreenPos { x: 4, y: 4 });
    // Past the target on x with y aligned: a full unit step right.
    assert_eq!(e.pixels[2].0.pos, ScreenPos { x: 6, y: 5 });
    // Targets never move.
    assert_eq!(e.pixels[0].1, ScreenPos { x: 8, y: 5 });
}

#[test]
fn life_counts_down_by_one() {
    let mut e = burst(vec![(pix(5, 5), ScreenPos { x: 9, y: 9 })], 6);
    for expected in (0..6u8).rev() {
        e.fly(20);
        assert_eq!(e.life, expected);
    }
}

#[test]
fn spent_burst_is_inert() {
    let mut e = burst(vec![(pix(5, 5), ScreenPos { x: 9, y: 9 })], 1);
    e.fly(20);
    assert_eq!(e.life, 0);
    assert!(e.pixels.is_empty());
    // Every later tick leaves the spent burst exactly as it is.
    for _ in 0..5 {
        e.fly(20);
        assert_eq!(e.life, 0);
        assert!(e.pixels.is_empty());
        assert_eq!(e.speed_target, 0);
    }
}

#[test]
fn gate_quantizes_steps() {
    // Speed 9 with 2 added per tick: a step lands on every fifth tick, so
    // 45 ticks yield 9 steps, one away from the ideal 45 * 2 / 9 = 10.
    let mut e = burst(vec![(pix(5, 5), ScreenPos { x: 9, y: 9 })], 100);
    e.speed = 9;
    let mut steps: i64 = 0;
    let mut last_life = e.life;
    for _ in 0..45 {
        e.fly(2);
        if e.life != last_life {
            steps += 1;
            last_life = e.life;
        }
    }
    assert_eq!(steps, 9);
    assert!((steps - 45 * 2 / 9).abs() <= 1);
}

#[test]
fn step_clamps_at_screen_edge() {
    // A particle on the left edge whose step would go negative stays put;
    // one on the top edge likewise.
    let mut e = burst(
        vec![
            (pix(0, 5), ScreenPos { x: 4, y: 5 }),
            (pix(3, 0), ScreenPos { x: 3, y: 4 }),
        ],
        3,
    );
    e.fly(20);
    assert_eq!(e.pixels[0].0.pos, ScreenPos { x: 0, y: 5 });
    assert_eq!(e.pixels[1].0.pos, ScreenPos { x: 3, y: 0 });
}
