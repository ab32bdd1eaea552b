use mir::config::Config;

fn invariant_holds(c: &Config) -> bool {
    1 <= c.framerate
        && c.framerate <= 15
        && 4 <= c.min_trail
        && c.min_trail <= c.max_trail
        && c.max_trail <= 40
        && c.glitch_ppm <= 1_000_000
        && c.flicker_ppm <= 1_000_000
        && c.stuck_ppm <= 1_000_000
        && c.new_drop_ppm <= 1_000_000
}

#[test]
fn defaults_are_sound() {
    let c = Config::new();
    assert!(invariant_holds(&c));
    assert_eq!(c.get_framerate(), 12);
    assert_eq!(c.get_min_trail(), 8);
    assert_eq!(c.get_max_trail(), 25);
    assert_eq!(c.get_glitch_probability(), 3000);
    assert_eq!(c.get_flicker_probability(), 10000);
    assert_eq!(c.get_stuck_probability(), 20000);
    assert_eq!(c.get_new_drop_probability(), 50000);
    assert_eq!(c.get_stuck_capacity(), 0);
}

#[test]
fn min_trail_clamps_against_max() {
    let mut c = Config::new();
    c.set_min_trail(100);
    assert_eq!(c.get_min_trail(), 25);
    assert!(invariant_holds(&c));
    c.set_min_trail(1);
    assert_eq!(c.get_min_trail(), 4);
    assert!(invariant_holds(&c));
}

#[test]
fn max_trail_clamps_against_min() {
    let mut c = Config::new();
    c.set_max_trail(100);
    assert_eq!(c.get_max_trail(), 40);
    assert!(invariant_holds(&c));
    c.set_max_trail(2);
    assert_eq!(c.get_max_trail(), 8);
    assert!(c.get_min_trail() <= c.get_max_trail());
    assert!(invariant_holds(&c));
}

#[test]
fn trail_bounds_ordered_after_any_write_order() {
    let mut c = Config::new();
    c.set_max_trail(4);
    c.set_min_trail(40);
    assert!(c.get_min_trail() <= c.get_max_trail());
    assert!(invariant_holds(&c));
    c.set_min_trail(40);
    c.set_max_trail(4);
    assert!(c.get_min_trail() <= c.get_max_trail());
    assert!(invariant_holds(&c));
}

#[test]
fn probabilities_clamp_to_unit_range() {
    let mut c = Config::new();
    c.set_glitch_probability(2_000_000);
    assert_eq!(c.get_glitch_probability(), 1_000_000);
    c.set_flicker_probability(0);
    assert_eq!(c.get_flicker_probability(), 0);
    c.set_stuck_probability(1_000_001);
    assert_eq!(c.get_stuck_probability(), 1_000_000);
    c.set_new_drop_probability(999_999);
    assert_eq!(c.get_new_drop_probability(), 999_999);
    assert!(invariant_holds(&c));
}

#[test]
fn framerate_clamps_to_documented_range() {
    let mut c = Config::new();
    c.set_framerate(100);
    assert_eq!(c.get_framerate(), 15);
    c.set_framerate(0);
    assert_eq!(c.get_framerate(), 1);
    assert!(invariant_holds(&c));
}
