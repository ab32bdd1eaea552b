use mir::charset::get_charset_by_name;
use mir::colors::{MatrixColorScheme, TermColor};
use mir::config::Config;
use mir::drops::MatrixDrop;
use mir::render::{RenderCmd, RenderColor};
use mir::stuck::StuckTable;

fn fixed_length_config(len: usize) -> Config {
    let mut c = Config::new();
    c.set_min_trail(4);
    c.set_max_trail(len);
    c.set_min_trail(len);
    c
}

fn quiet_config() -> Config {
    let mut c = Config::new();
    c.set_glitch_probability(0);
    c.set_flicker_probability(0);
    c
}

fn plain_drop(x: u16, length: usize, y_milli: i64, prev_y_milli: i64) -> MatrixDrop {
    MatrixDrop {
        x,
        y_milli,
        prev_y_milli,
        length,
        speed_milli: 1000,
        chars: vec!['A'; length],
    }
}

#[test]
fn fresh_drop_starts_one_trail_above_the_screen() {
    let charset = get_charset_by_name("katakana");
    let config = fixed_length_config(7);
    let d = MatrixDrop::new(3, 20, &charset, &config);
    assert_eq!(d.x, 3);
    assert_eq!(d.length, 7);
    assert_eq!(d.y_milli, -7000);
    assert_eq!(d.prev_y_milli, -7000);
    assert_eq!(d.chars.len(), 7);
    assert!(1000 <= d.speed_milli && d.speed_milli < 1300);
    for ch in &d.chars {
        assert!(charset.contains(ch));
    }
}

#[test]
fn drawn_lengths_stay_inside_the_configured_bounds() {
    let charset = get_charset_by_name("alphanumeric");
    let config = Config::new();
    for _ in 0..50 {
        let d = MatrixDrop::new(0, 24, &charset, &config);
        assert!(config.get_min_trail() <= d.length);
        assert!(d.length <= config.get_max_trail());
        assert_eq!(d.y_milli, -(d.length as i64) * 1000);
    }
}

#[test]
fn update_reports_expiry_exactly_at_the_boundary() {
    let charset = get_charset_by_name("alphanumeric");
    let mut config = quiet_config();
    config.set_framerate(10);
    let rows: u16 = 10;
    let mut d = plain_drop(0, 8, 17_900, 17_900);
    // step = speed * elapsed * framerate / 1000 = 1000 * 10 * 10 / 1000
    // milli-cells: 0.1 cells of simulated fall in 10 ms at rate 10
    let reset = d.update(10, rows, &charset, &config);
    assert_eq!(d.y_milli, 18_000);
    assert!(!reset);
    assert_eq!(reset, d.y_milli > (rows as i64 + d.length as i64) * 1000);
    // a second update pushes the head strictly past rows + length
    let reset = d.update(1_000, rows, &charset, &config);
    assert!(reset);
    assert_eq!(reset, d.y_milli > (rows as i64 + d.length as i64) * 1000);
}

#[test]
fn update_keeps_speed_and_glyphs_in_their_domains() {
    let charset = get_charset_by_name("greek");
    let config = Config::new();
    let glitch = ['▒', '▓', '░', '█'];
    let mut d = MatrixDrop::new(5, 50, &charset, &config);
    for _ in 0..200 {
        let reset = d.update(60, 50, &charset, &config);
        assert!(500 <= d.speed_milli && d.speed_milli <= 3000);
        assert_eq!(d.chars.len(), d.length);
        for ch in &d.chars {
            assert!(charset.contains(ch) || glitch.contains(ch));
        }
        if reset {
            break;
        }
    }
}

#[test]
fn update_records_the_previous_position() {
    let charset = get_charset_by_name("alphanumeric");
    let config = quiet_config();
    let mut d = plain_drop(2, 8, 5_000, 4_000);
    let before = d.y_milli;
    d.update(60, 24, &charset, &config);
    assert_eq!(d.prev_y_milli, before);
    assert!(d.y_milli >= d.prev_y_milli);
}

#[test]
fn sticky_roll_only_fires_for_expired_drops() {
    let charset = get_charset_by_name("alphanumeric");
    let mut config = quiet_config();
    config.set_stuck_probability(1_000_000);
    let live = plain_drop(4, 4, 10_000, 10_000);
    assert_eq!(live.should_leave_sticky(20, &config), None);
    let expired = plain_drop(4, 4, 30_000, 30_000);
    let got = expired.should_leave_sticky(20, &config);
    match got {
        Some((col, row, glyph)) => {
            assert_eq!(col, 4);
            assert!(row < 20);
            assert_eq!(glyph, 'A');
        }
        None => panic!("a certain stuck roll must leave a glyph"),
    }
    config.set_stuck_probability(0);
    assert_eq!(expired.should_leave_sticky(20, &config), None);
    // a screen with no rows can never take a stuck glyph
    config.set_stuck_probability(1_000_000);
    assert_eq!(expired.should_leave_sticky(0, &config), None);
}

#[test]
fn render_draws_the_visible_head_in_the_bright_color() {
    let config = quiet_config();
    let d = plain_drop(7, 4, 0, 0);
    let mut table = StuckTable::new();
    let mut cmds: Vec<RenderCmd> = Vec::new();
    d.render(10, false, MatrixColorScheme::Green, &mut table, &mut cmds, &config);
    assert_eq!(
        cmds,
        vec![RenderCmd::Glyph {
            col: 7,
            row: 0,
            color: RenderColor::Solid(TermColor::White),
            glyph: 'A',
        }]
    );
}

#[test]
fn render_fades_the_body_in_rgb_mode() {
    let config = quiet_config();
    let d = plain_drop(1, 4, 2_000, 2_000);
    let mut table = StuckTable::new();
    let mut cmds: Vec<RenderCmd> = Vec::new();
    let scheme = MatrixColorScheme::Custom(TermColor::Red);
    d.render(10, true, scheme, &mut table, &mut cmds, &config);
    assert_eq!(
        cmds,
        vec![
            RenderCmd::Glyph {
                col: 1,
                row: 2,
                color: RenderColor::Solid(TermColor::White),
                glyph: 'A',
            },
            RenderCmd::Glyph {
                col: 1,
                row: 1,
                color: RenderColor::Fade { r: 255, g: 0, b: 0, index: 1, length: 4 },
                glyph: 'A',
            },
            RenderCmd::Glyph {
                col: 1,
                row: 0,
                color: RenderColor::Fade { r: 255, g: 0, b: 0, index: 2, length: 4 },
                glyph: 'A',
            },
        ]
    );
}

#[test]
fn render_clears_vacated_cells_but_spares_stuck_glyphs() {
    let config = quiet_config();
    let d = plain_drop(3, 4, 6_000, 5_000);
    let mut table = StuckTable::new();
    table.insert(3, 1, '†', 0, 0);
    let mut cmds: Vec<RenderCmd> = Vec::new();
    d.render(10, false, MatrixColorScheme::Green, &mut table, &mut cmds, &config);
    // the tail moved from row 1 to row 2: row 2 is cleared, row 1 is
    // occupied by a stuck glyph and spared
    assert_eq!(cmds[0], RenderCmd::Clear { col: 3, row: 2 });
    assert_eq!(cmds.len(), 1 + 4);
    assert_eq!(table.len(), 1);
}

#[test]
fn render_removes_stuck_glyphs_it_draws_over() {
    let config = quiet_config();
    let d = plain_drop(2, 4, 5_000, 5_000);
    let mut table = StuckTable::new();
    table.insert(2, 4, '†', 0, 0);
    table.insert(9, 4, '†', 0, 0);
    let mut cmds: Vec<RenderCmd> = Vec::new();
    d.render(10, false, MatrixColorScheme::Green, &mut table, &mut cmds, &config);
    // the drop covers rows 2..=5 of column 2 and overwrites the stuck
    // glyph there; the one in another column survives
    assert!(!table.contains(2, 4));
    assert!(table.contains(9, 4));
}

#[test]
fn long_trails_and_tiny_screens_do_not_panic() {
    let charset = get_charset_by_name("symbols");
    let mut config = Config::new();
    config.set_max_trail(40);
    config.set_min_trail(40);
    let mut d = MatrixDrop::new(0, 5, &charset, &config);
    let mut table = StuckTable::new();
    for _ in 0..100 {
        let reset = d.update(60, 5, &charset, &config);
        if reset {
            break;
        }
        let mut cmds: Vec<RenderCmd> = Vec::new();
        d.render(5, false, MatrixColorScheme::Green, &mut table, &mut cmds, &config);
        for cmd in &cmds {
            let row = match cmd {
                RenderCmd::Clear { row, .. } => *row,
                RenderCmd::Glyph { row, .. } => *row,
            };
            assert!(row < 5);
        }
    }
}
