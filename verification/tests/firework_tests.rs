//! The rocket lifecycle: ascent one row per qualifying tick, detonation
//! exactly once at the target height, forwarding of later ticks to the
//! burst, spawn ranges, and the rendered pixels of each phase.

use fireworks::firework::{spawn_firework, Firework};
use fireworks::pixel::{Color, ScreenPos};

fn rocket(y: u16, target_y: u16) -> Firework {
    Firework {
        pos: ScreenPos { x: 5, y },
        target: ScreenPos { x: 5, y: target_y },
        lifetime_ms: 10_000,
        speed: 1,
        speed_target: 0,
        explosion: None,
        color: Color { r: 9, g: 8, b: 7 },
    }
}

#[test]
fn ascent_then_single_detonation() {
    let mut rng = rand::thread_rng();
    let mut f = rocket(20, 10);
    // While above the target the rocket climbs exactly one row per
    // qualifying tick and no burst exists.
    for i in 1..=10u16 {
        f.fly(20, &mut rng);
        assert_eq!(f.pos.y, 20 - i);
        assert!(f.explosion.is_none());
    }
    // At the target height the next qualifying tick detonates; the birth
    // tick does not advance the new burst.
    f.fly(20, &mut rng);
    assert_eq!(f.pos.y, 10);
    let (life0, count0) = {
        let e = f.explosion.as_ref().expect("burst created at target height");
        assert_eq!(e.origin, ScreenPos { x: 5, y: 10 });
        assert_eq!(e.speed_target, 0);
        for (p, _) in &e.pixels {
            assert_eq!(p.pos, ScreenPos { x: 5, y: 10 });
        }
        (e.life, e.pixels.len())
    };
    // Once a burst exists, the firework renders the burst's particles.
    let px = f.pixels();
    assert_eq!(px.len(), count0);
    for p in &px {
        assert_eq!(p.glyph, '*');
        assert_eq!(p.pos, ScreenPos { x: 5, y: 10 });
    }
    // Later ticks are forwarded to the same burst, never to a new one.
    f.fly(20, &mut rng);
    let e = f.explosion.as_ref().unwrap();
    assert_eq!(e.life, life0 - 1);
    if e.life > 0 {
        assert_eq!(e.pixels.len(), count0);
    }
}

#[test]
fn spawn_ranges() {
    let mut rng = rand::thread_rng();
    for _ in 0..200 {
        let f = spawn_firework(80, 24, &mut rng);
        assert!(f.pos.x < 80);
        assert_eq!(f.pos.y, 23);
        assert_eq!(f.target.x, f.pos.x);
        assert!(8 <= f.target.y && f.target.y < 21);
        assert!(1000 <= f.lifetime_ms && f.lifetime_ms < 2000);
        assert!(1 <= f.speed && f.speed < 10);
        assert_eq!(f.speed_target, 0);
        assert!(f.explosion.is_none());
    }
}

#[test]
fn rocket_renders_single_glyph() {
    let f = rocket(20, 10);
    let px = f.pixels();
    assert_eq!(px.len(), 1);
    assert_eq!(px[0].glyph, '#');
    assert_eq!(px[0].pos, ScreenPos { x: 5, y: 20 });
    assert_eq!(px[0].fg, Some(Color { r: 9, g: 8, b: 7 }));
    assert_eq!(px[0].bg, None);
}

#[test]
fn slow_rocket_waits_for_gate() {
    let mut rng = rand::thread_rng();
    let mut f = rocket(20, 10);
    f.speed = 9;
    // With speed 9 and 2 per tick, four ticks only accumulate.
    for expected in [2u64, 4, 6, 8] {
        f.fly(2, &mut rng);
        assert_eq!(f.pos.y, 20);
        assert_eq!(f.speed_target, expected);
    }
    // The fifth tick reaches the threshold and moves one row.
    f.fly(2, &mut rng);
    assert_eq!(f.pos.y, 19);
    assert_eq!(f.speed_target, 0);
}
