use mir::charset::get_charset_by_name;
use mir::colors::MatrixColorScheme;
use mir::config::Config;
use mir::engine::Engine;
use mir::render::RenderCmd;

fn cmd_pos(cmd: &RenderCmd) -> (u16, u16) {
    match cmd {
        RenderCmd::Clear { col, row } => (*col, *row),
        RenderCmd::Glyph { col, row, .. } => (*col, *row),
    }
}

fn grid_is_sound(engine: &Engine) {
    assert_eq!(engine.drops.len(), engine.cols as usize);
    for (i, slot) in engine.drops.iter().enumerate() {
        if let Some(d) = slot {
            assert_eq!(d.x as usize, i);
        }
    }
}

#[test]
fn long_run_stays_on_screen_and_respects_capacity() {
    let charset = get_charset_by_name("classic");
    let mut config = Config::new();
    config.set_stuck_probability(1_000_000);
    config.set_stuck_capacity(5);
    let mut engine = Engine::new(
        80,
        24,
        10,
        false,
        true,
        charset,
        config,
        MatrixColorScheme::Green,
    );
    let mut now: u64 = 0;
    for _ in 0..1000 {
        now += 60;
        let cmds = engine.frame(now, 60);
        for cmd in &cmds {
            let (col, row) = cmd_pos(cmd);
            assert!(col < 80);
            assert!(row < 24);
        }
        assert!(engine.stuck.entries.len() <= 5);
        grid_is_sound(&engine);
    }
}

#[test]
fn initial_seeding_fills_distinct_columns() {
    let charset = get_charset_by_name("katakana");
    let config = Config::new();
    let engine = Engine::new(12, 24, 5, false, true, charset, config, MatrixColorScheme::Green);
    let occupied = engine.drops.iter().filter(|s| s.is_some()).count();
    assert_eq!(occupied, 5);
    grid_is_sound(&engine);

    let charset = get_charset_by_name("katakana");
    let engine = Engine::new(12, 24, 12, false, true, charset, Config::new(), MatrixColorScheme::Green);
    let occupied = engine.drops.iter().filter(|s| s.is_some()).count();
    assert_eq!(occupied, 12);

    let charset = get_charset_by_name("katakana");
    let engine = Engine::new(12, 24, 100, false, true, charset, Config::new(), MatrixColorScheme::Green);
    let occupied = engine.drops.iter().filter(|s| s.is_some()).count();
    assert_eq!(occupied, 12);
}

#[test]
fn spawn_pass_follows_the_configured_probability() {
    let charset = get_charset_by_name("katakana");
    let mut config = Config::new();
    config.set_new_drop_probability(1_000_000);
    let mut engine = Engine::new(5, 10, 0, false, false, charset, config, MatrixColorScheme::Green);
    assert_eq!(engine.drops.iter().filter(|s| s.is_some()).count(), 0);
    engine.frame(1_000, 60);
    assert_eq!(engine.drops.iter().filter(|s| s.is_some()).count(), 5);

    let charset = get_charset_by_name("katakana");
    let mut config = Config::new();
    config.set_new_drop_probability(0);
    let mut engine = Engine::new(5, 10, 0, false, false, charset, config, MatrixColorScheme::Green);
    engine.frame(1_000, 60);
    assert_eq!(engine.drops.iter().filter(|s| s.is_some()).count(), 0);
}

#[test]
fn spawn_pass_waits_for_its_interval() {
    let charset = get_charset_by_name("katakana");
    let mut config = Config::new();
    config.set_new_drop_probability(1_000_000);
    let mut engine = Engine::new(5, 10, 0, false, false, charset, config, MatrixColorScheme::Green);
    // within the interval of the initial spawn stamp nothing spawns
    engine.frame(100, 60);
    assert_eq!(engine.drops.iter().filter(|s| s.is_some()).count(), 0);
    engine.frame(500, 60);
    assert_eq!(engine.drops.iter().filter(|s| s.is_some()).count(), 5);
}

#[test]
fn resize_clears_stuck_glyphs_and_adopts_the_new_geometry() {
    let charset = get_charset_by_name("classic");
    let mut config = Config::new();
    config.set_stuck_probability(1_000_000);
    let mut engine = Engine::new(80, 40, 20, false, true, charset, config, MatrixColorScheme::Green);
    let mut now: u64 = 0;
    for _ in 0..300 {
        now += 60;
        engine.frame(now, 60);
    }
    engine.handle_resize(80, 10);
    assert_eq!(engine.rows, 10);
    assert_eq!(engine.cols, 80);
    assert_eq!(engine.stuck.entries.len(), 0);
    grid_is_sound(&engine);
    for _ in 0..50 {
        now += 60;
        let cmds = engine.frame(now, 60);
        for cmd in &cmds {
            let (col, row) = cmd_pos(cmd);
            assert!(col < 80);
            assert!(row < 10);
        }
    }
}

#[test]
fn quit_drains_and_restores_exactly_once() {
    let charset = get_charset_by_name("katakana");
    let mut engine = Engine::new(10, 10, 3, false, true, charset, Config::new(), MatrixColorScheme::Green);
    assert!(engine.is_running());
    engine.frame(60, 60);
    engine.request_quit();
    assert!(!engine.is_running());
    // a drained engine produces no further drawing
    let cmds = engine.frame(120, 60);
    assert!(cmds.is_empty());
    let mut restores = 0;
    if engine.finish() {
        restores += 1;
    }
    if engine.finish() {
        restores += 1;
    }
    assert_eq!(restores, 1);
}

#[test]
fn frames_advance_every_occupied_drop() {
    let charset = get_charset_by_name("katakana");
    let mut config = Config::new();
    config.set_new_drop_probability(0);
    let mut engine = Engine::new(1, 24, 1, false, false, charset, config, MatrixColorScheme::Green);
    let before = engine.drops[0].as_ref().expect("seeded column");
    let y0 = before.y_milli;
    let speed0 = before.speed_milli as i64;
    let len0 = before.length;
    // one 60 ms frame at the default rate of 12 simulated ticks/s
    engine.frame(1_000, 60);
    let after = engine.drops[0].as_ref().expect("column stays occupied");
    let step = speed0 * 60 * 12 / 1000;
    assert!(step > 0, "the rain must actually fall");
    assert_eq!(after.length, len0);
    assert_eq!(after.prev_y_milli, y0);
    assert_eq!(after.y_milli, y0 + step);
}

#[test]
fn expired_drops_are_replaced_in_place() {
    let charset = get_charset_by_name("katakana");
    let mut config = Config::new();
    config.set_new_drop_probability(0);
    let mut engine = Engine::new(1, 10, 1, false, false, charset, config, MatrixColorScheme::Green);
    // a frame spanning a very long simulated time expires the drop,
    // and the slot must hold a fresh replacement, never None
    engine.frame(1_000, 100_000);
    let after = engine.drops[0].as_ref().expect("expired drop is replaced");
    assert_eq!(after.x, 0);
    assert_eq!(after.y_milli, -(after.length as i64) * 1000);
    assert_eq!(after.prev_y_milli, after.y_milli);
}

#[test]
fn degenerate_screens_do_not_panic() {
    let charset = get_charset_by_name("katakana");
    let mut engine = Engine::new(0, 0, 10, true, true, charset, Config::new(), MatrixColorScheme::Green);
    let cmds = engine.frame(1_000, 60);
    assert!(cmds.is_empty());
    engine.handle_resize(0, 5);
    engine.frame(2_000, 60);
    engine.handle_resize(5, 0);
    let cmds = engine.frame(3_000, 60);
    assert!(cmds.is_empty());
    grid_is_sound(&engine);
}

#[test]
fn stuck_glyphs_are_emitted_before_drop_glyphs() {
    let charset = get_charset_by_name("katakana");
    let mut config = Config::new();
    config.set_new_drop_probability(0);
    let mut engine = Engine::new(4, 10, 0, false, true, charset, config, MatrixColorScheme::Green);
    engine.stuck.insert(2, 3, '†', 0, 0);
    let cmds = engine.frame(60, 60);
    // with no drops the frame draws exactly the one stuck glyph
    assert_eq!(cmds.len(), 1);
    match &cmds[0] {
        RenderCmd::Glyph { col, row, glyph, .. } => {
            assert_eq!((*col, *row), (2, 3));
            assert_eq!(*glyph, '†');
        }
        other => panic!("expected a glyph command, got {:?}", other),
    }
}
