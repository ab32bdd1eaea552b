//! The state machine of one falling drop: a trail of glyphs in one
//! terminal column.
//!
//! Positions are fixed-point: one cell is `POS_SCALE` milli-cells, so
//! the head advances by `speed * elapsed * framerate` without floating
//! point. A drop is created fully above the screen, falls until its
//! whole trail has left the visible area, and is then expired: the
//! caller replaces it with a fresh drop in the same column.

use vstd::prelude::*;
use crate::charset::glitch_seq;
use crate::colors::MatrixColorScheme;
use crate::config::Config;
use crate::render::{RenderCmd, RenderColor, cmd_is_clear_at, cmd_is_glyph_at, spec_glyph_color};
use crate::rng::{rand_index, rand_ppm, rand_range_inclusive};
use crate::stuck::StuckTable;
use vstd::pervasive::VecAdditionalExecFns;

verus! {

/// Milli-cells per terminal cell.
pub const POS_SCALE: i64 = 1000;

/// A head position past this cap cannot be distinguished by any
/// screen: it is beyond every possible expiry threshold. Positions are
/// clamped here so they stay bounded over any number of updates.
pub const POS_CAP_MILLI: i64 = 66_000_000;

/// Slowest a drop may fall, in milli-speed units.
pub const SPEED_MIN_MILLI: u32 = 500;

/// Fastest a drop may fall, in milli-speed units.
pub const SPEED_MAX_MILLI: u32 = 3000;

/// Width of the uniform draw added to the base speed at creation.
pub const SPEED_VARIATION_MILLI: u32 = 300;

/// Chance per update that the speed is perturbed.
pub const SPEED_JITTER_PPM: u32 = 20_000;

/// Largest perturbation of the speed in one update, in milli-units.
pub const SPEED_JITTER_MILLI: u32 = 50;

/// Chance per glyph per update of being resampled.
pub const CHAR_CHANGE_PPM: u32 = 200_000;

/// Chance that a resample picks a glitch glyph instead of a palette
/// one.
pub const GLITCH_SWAP_PPM: u32 = 5_000;

/// One falling trail of glyphs in a single terminal column.
pub struct MatrixDrop {
    /// The column; fixed for the drop's lifetime.
    pub x: u16,
    /// Head position in milli-cells below the top of the screen.
    pub y_milli: i64,
    /// Head position at the prior update, bounding the cells vacated
    /// since the last frame.
    pub prev_y_milli: i64,
    /// Glyph count; fixed at creation.
    pub length: usize,
    /// Fall speed in milli-units; 1000 is one cell per simulated tick.
    pub speed_milli: u32,
    /// The trail's glyphs, head first.
    pub chars: Vec<char>,
}

/// How far a head moves, in milli-cells: speed times elapsed seconds
/// times the configured rate, all in fixed point. Speed and position
/// carry a factor of 1000 each and the elapsed time one of 1000, so
/// one factor of 1000 divides out.
pub open spec fn spec_step_milli(speed_milli: u32, elapsed_ms: u32, framerate: u32) -> int {
    (speed_milli * elapsed_ms * framerate) / 1000
}

/// The new head position after one update: advanced and clamped at
/// the cap.
pub open spec fn spec_advanced(y_milli: i64, speed_milli: u32, elapsed_ms: u32, framerate: u32) -> int {
    let moved = y_milli + spec_step_milli(speed_milli, elapsed_ms, framerate);
    if moved > POS_CAP_MILLI {
        POS_CAP_MILLI as int
    } else {
        moved
    }
}

/// The screen cell a milli-position falls in (the floor), for
/// positions from one full trail above the screen to the cap.
pub open spec fn spec_cell_of_milli(v: int) -> int {
    (v + 40_000) / 1000 - 40
}

impl MatrixDrop {
    /// The drop's invariant: a legal trail length matching the glyph
    /// buffer, a bounded speed, and head positions between "fully
    /// above the screen" and the cap, with the previous position never
    /// ahead of the current one.
    pub open spec fn wf(&self) -> bool {
        &&& crate::config::TRAIL_MIN_LIMIT <= self.length <= crate::config::TRAIL_MAX_LIMIT
        &&& self.chars@.len() == self.length
        &&& SPEED_MIN_MILLI <= self.speed_milli <= SPEED_MAX_MILLI
        &&& -(self.length as int) * (POS_SCALE as int) <= self.y_milli <= POS_CAP_MILLI
        &&& -(self.length as int) * (POS_SCALE as int) <= self.prev_y_milli <= POS_CAP_MILLI
        &&& self.prev_y_milli <= self.y_milli
    }

    /// Whether the drop has fully left a screen of `rows` rows: the
    /// head is more than one trail length below the bottom edge.
    pub open spec fn spec_expired(&self, rows: u16) -> bool {
        self.y_milli > (rows as int + self.length as int) * (POS_SCALE as int)
    }

    /// The screen cell the head currently falls in.
    pub open spec fn spec_head_cell(&self) -> int {
        spec_cell_of_milli(self.y_milli as int)
    }

    /// The screen cell the head fell in at the prior update.
    pub open spec fn spec_prev_head_cell(&self) -> int {
        spec_cell_of_milli(self.prev_y_milli as int)
    }

    /// Whether the glyph `i` places behind the head falls on a screen
    /// of `rows` rows.
    pub open spec fn spec_index_visible(&self, i: int, rows: u16) -> bool {
        0 <= i < self.length && 0 <= self.spec_head_cell() - i < rows
    }

    /// The cell just below the trail's end at the prior update.
    pub open spec fn spec_prev_tail_cell(&self) -> int {
        self.spec_prev_head_cell() - self.length
    }

    /// The cell just below the trail's end now.
    pub open spec fn spec_new_tail_cell(&self) -> int {
        self.spec_head_cell() - self.length
    }

    /// Whether the on-screen cell `yy` of this drop's column lies
    /// between the two tail positions, so a render pass must blank it
    /// unless a stuck glyph sits there.
    pub open spec fn spec_cell_vacated(&self, yy: int, rows: u16) -> bool {
        &&& (self.spec_prev_tail_cell() <= yy || self.spec_new_tail_cell() <= yy)
        &&& (yy <= self.spec_prev_tail_cell() || yy <= self.spec_new_tail_cell())
        &&& 0 <= yy < rows
    }

    /// What must hold of every command this drop emits: it touches
    /// only this drop's column and visible rows; a clear only blanks a
    /// vacated, non-stuck cell between the two tail positions; a glyph
    /// lands where a trail index falls, in that index's color, showing
    /// the stored glyph, a blank (flicker) or a glitch glyph.
    pub open spec fn spec_render_cmd_ok(
        &self,
        c: RenderCmd,
        rows: u16,
        use_rgb_fade: bool,
        color_scheme: MatrixColorScheme,
        sticky0: StuckTable,
    ) -> bool {
        match c {
            RenderCmd::Clear { col, row } => {
                &&& col == self.x
                &&& row < rows
                &&& !sticky0.spec_contains_pos(col, row)
                &&& (self.spec_prev_tail_cell() <= row || self.spec_new_tail_cell() <= row)
                &&& (row <= self.spec_prev_tail_cell() || row <= self.spec_new_tail_cell())
            },
            RenderCmd::Glyph { col, row, color, glyph } => {
                &&& col == self.x
                &&& row < rows
                &&& 0 <= self.spec_head_cell() - row < self.length
                &&& color == spec_glyph_color(
                    color_scheme,
                    use_rgb_fade,
                    self.spec_head_cell() - row,
                    self.length,
                )
                &&& (glyph == ' ' || glyph == self.chars@[self.spec_head_cell() - row]
                    || glitch_seq().contains(glyph))
            },
        }
    }

    /// A fresh drop at column `x`: trail length drawn from the
    /// configured bounds, speed drawn just above the base, every glyph
    /// drawn from the palette, and the head exactly one trail length
    /// above the screen.
    pub fn new(x: u16, _rows: u16, charset: &Vec<char>, config: &Config) -> (r: MatrixDrop)
        requires
            charset@.len() >= 1,
            config.wf(),
        ensures
            r.wf(),
            r.x == x,
            config.min_trail <= r.length <= config.max_trail,
            r.y_milli == -(r.length as int) * (POS_SCALE as int),
            r.prev_y_milli == r.y_milli,
            1000 <= r.speed_milli < 1000 + SPEED_VARIATION_MILLI,
            forall|i: int| 0 <= i < r.chars@.len() ==> charset@.contains(#[trigger] r.chars@[i]),
    {
        let length = rand_range_inclusive(config.min_trail, config.max_trail);
        let speed_milli = 1000 + rand_index(SPEED_VARIATION_MILLI as usize) as u32;
        let mut chars: Vec<char> = Vec::new();
        while chars.len() < length
            invariant
                charset@.len() >= 1,
                chars@.len() <= length,
                forall|i: int|
                    0 <= i < chars@.len() ==> charset@.contains(#[trigger] chars@[i]),
            decreases length - chars@.len(),
        {
            let c = charset[rand_index(charset.len())];
            chars.push(c);
        }
        let y_milli = -(length as i64) * POS_SCALE;
        MatrixDrop { x, y_milli, prev_y_milli: y_milli, length, speed_milli, chars }
    }

    /// One simulation step: remembers the prior position, advances the
    /// head by `speed * elapsed * framerate`, sometimes perturbs the
    /// speed within its bounds, and reports whether the drop expired.
    /// A live drop then resamples each glyph with a small chance, now
    /// and then to a glitch glyph. The caller replaces an expired drop
    /// rather than updating it again.
    pub fn update(&mut self, elapsed_ms: u32, rows: u16, charset: &Vec<char>, config: &Config) -> (reset: bool)
        requires
            old(self).wf(),
            charset@.len() >= 1,
            config.wf(),
        ensures
            final(self).wf(),
            final(self).x == old(self).x,
            final(self).length == old(self).length,
            final(self).chars@.len() == old(self).chars@.len(),
            final(self).prev_y_milli == old(self).y_milli,
            final(self).y_milli == spec_advanced(
                old(self).y_milli,
                old(self).speed_milli,
                elapsed_ms,
                config.framerate,
            ),
            reset == final(self).spec_expired(rows),
            old(self).speed_milli - SPEED_JITTER_MILLI <= final(self).speed_milli <= old(
                self,
            ).speed_milli + SPEED_JITTER_MILLI,
            reset ==> final(self).chars@ == old(self).chars@,
            forall|i: int|
                0 <= i < final(self).chars@.len() ==> final(self).chars@[i] == old(self).chars@[i]
                    || charset@.contains(#[trigger] final(self).chars@[i]) || glitch_seq().contains(
                    final(self).chars@[i],
                ),
    {
        proof {
            let sp = self.speed_milli as int;
            let el = elapsed_ms as int;
            let fr = config.framerate as int;
            assert(sp * el <= 3000 * 0xffff_ffff && sp * el * fr <= 3000 * 0xffff_ffff * 15)
                by (nonlinear_arith)
                requires
                    0 <= sp <= 3000,
                    0 <= el <= 0xffff_ffff,
                    0 <= fr <= 15,
            ;
        }
        let step: u64 = (self.speed_milli as u64) * (elapsed_ms as u64) * (config.framerate
            as u64) / 1000;
        self.prev_y_milli = self.y_milli;
        let moved = self.y_milli + (step as i64);
        self.y_milli = if moved > POS_CAP_MILLI {
            POS_CAP_MILLI
        } else {
            moved
        };

        if rand_ppm() < SPEED_JITTER_PPM {
            let jitter = rand_index(2 * SPEED_JITTER_MILLI as usize) as i64 - SPEED_JITTER_MILLI
                as i64;
            let perturbed = self.speed_milli as i64 + jitter;
            self.speed_milli = if perturbed < SPEED_MIN_MILLI as i64 {
                SPEED_MIN_MILLI
            } else if perturbed > SPEED_MAX_MILLI as i64 {
                SPEED_MAX_MILLI
            } else {
                perturbed as u32
            };
        }

        let threshold = (rows as i64 + self.length as i64) * POS_SCALE;
        if self.y_milli > threshold {
            return true;
        }

        let glitch = crate::charset::glitch_chars();
        let n = self.chars.len();
        let ghost pre = *self;
        let mut i: usize = 0;
        while i < n
            invariant
                n == self.chars@.len(),
                i <= n,
                charset@.len() >= 1,
                glitch@ == glitch_seq(),
                pre.chars@.len() == n,
                self.x == pre.x,
                self.y_milli == pre.y_milli,
                self.prev_y_milli == pre.prev_y_milli,
                self.speed_milli == pre.speed_milli,
                self.length == pre.length,
                forall|j: int|
                    0 <= j < n ==> self.chars@[j] == pre.chars@[j] || charset@.contains(
                        #[trigger] self.chars@[j],
                    ) || glitch_seq().contains(self.chars@[j]),
            decreases n - i,
        {
            if rand_ppm() < CHAR_CHANGE_PPM {
                if rand_ppm() < GLITCH_SWAP_PPM {
                    let c = glitch[rand_index(glitch.len())];
                    self.chars.set(i, c);
                } else {
                    let c = charset[rand_index(charset.len())];
                    self.chars.set(i, c);
                }
            }
            i += 1;
        }
        false
    }

    /// Emits this drop's drawing for the current frame: blanks the
    /// cells its tail vacated since the last frame (unless a stuck
    /// glyph sits there), then draws every visible trail glyph in its
    /// gradient color, rolling transient flicker and glitch per glyph
    /// and removing any stuck entry it draws over.
    pub fn render(
        &self,
        rows: u16,
        use_rgb_fade: bool,
        color_scheme: MatrixColorScheme,
        sticky: &mut StuckTable,
        cmds: &mut Vec<RenderCmd>,
        config: &Config,
    )
        requires
            self.wf(),
            old(sticky).wf(),
            config.wf(),
        ensures
            final(sticky).wf(),
            final(sticky).entries@.len() <= old(sticky).entries@.len(),
            forall|k: int|
                0 <= k < final(sticky).entries@.len() ==> old(sticky).entries@.contains(
                    #[trigger] final(sticky).entries@[k],
                ),
            final(cmds)@.len() >= old(cmds)@.len(),
            final(cmds)@.subrange(0, old(cmds)@.len() as int) == old(cmds)@,
            forall|k: int|
                old(cmds)@.len() <= k < final(cmds)@.len() ==> self.spec_render_cmd_ok(
                    #[trigger] final(cmds)@[k],
                    rows,
                    use_rgb_fade,
                    color_scheme,
                    *old(sticky),
                ),
            forall|i: int|
                #[trigger] self.spec_index_visible(i, rows) ==> exists|k: int|
                    old(cmds)@.len() <= k < final(cmds)@.len() && cmd_is_glyph_at(
                        #[trigger] final(cmds)@[k],
                        self.x,
                        (self.spec_head_cell() - i) as u16,
                    ),
            forall|i: int|
                #[trigger] self.spec_index_visible(i, rows) ==> !final(sticky).spec_contains_pos(
                    self.x,
                    (self.spec_head_cell() - i) as u16,
                ),
            forall|yy: int|
                #[trigger] self.spec_cell_vacated(yy, rows) && !old(sticky).spec_contains_pos(
                    self.x,
                    yy as u16,
                ) ==> exists|k: int|
                    old(cmds)@.len() <= k < final(cmds)@.len() && cmd_is_clear_at(
                        #[trigger] final(cmds)@[k],
                        self.x,
                        yy as u16,
                    ),
    {
        let head_cell = cell_of_milli(self.y_milli);
        let prev_head_cell = cell_of_milli(self.prev_y_milli);
        let old_tail = prev_head_cell - self.length as i64;
        let new_tail = head_cell - self.length as i64;
        let clear_lo = if old_tail < new_tail {
            old_tail
        } else {
            new_tail
        };
        let clear_hi = if old_tail > new_tail {
            old_tail
        } else {
            new_tail
        };
        let ghost cmds0 = cmds@;
        let ghost sticky0 = *sticky;

        let mut yy = if clear_lo < 0 {
            0
        } else {
            clear_lo
        };
        let hi = if clear_hi >= rows as i64 {
            rows as i64 - 1
        } else {
            clear_hi
        };
        while yy <= hi
            invariant
                self.wf(),
                sticky.wf(),
                *sticky == sticky0,
                head_cell == self.spec_head_cell(),
                prev_head_cell == self.spec_prev_head_cell(),
                clear_lo == if self.spec_prev_tail_cell() <= self.spec_new_tail_cell() {
                    self.spec_prev_tail_cell()
                } else {
                    self.spec_new_tail_cell()
                },
                clear_hi == if self.spec_prev_tail_cell() >= self.spec_new_tail_cell() {
                    self.spec_prev_tail_cell()
                } else {
                    self.spec_new_tail_cell()
                },
                hi < rows,
                hi <= clear_hi,
                yy >= 0,
                yy >= clear_lo,
                cmds@.len() >= cmds0.len(),
                cmds@.subrange(0, cmds0.len() as int) == cmds0,
                forall|k: int|
                    cmds0.len() <= k < cmds@.len() ==> self.spec_render_cmd_ok(
                        #[trigger] cmds@[k],
                        rows,
                        use_rgb_fade,
                        color_scheme,
                        sticky0,
                    ),
                forall|yy2: int|
                    #[trigger] self.spec_cell_vacated(yy2, rows) && yy2 < yy
                        && !sticky0.spec_contains_pos(self.x, yy2 as u16) ==> exists|k: int|
                        cmds0.len() <= k < cmds@.len() && cmd_is_clear_at(
                            #[trigger] cmds@[k],
                            self.x,
                            yy2 as u16,
                        ),
            decreases hi - yy + 1,
        {
            let row16 = yy as u16;
            if !sticky.contains(self.x, row16) {
                let ghost cmds_b = cmds@;
                cmds.push(RenderCmd::Clear { col: self.x, row: row16 });
                proof {
                    assert(cmds@.subrange(0, cmds0.len() as int) =~= cmds0);
                    assert forall|yy2: int|
                        #[trigger] self.spec_cell_vacated(yy2, rows) && yy2 < yy + 1
                            && !sticky0.spec_contains_pos(self.x, yy2 as u16) implies exists|
                        k: int,
                    |
                        cmds0.len() <= k < cmds@.len() && cmd_is_clear_at(
                            #[trigger] cmds@[k],
                            self.x,
                            yy2 as u16,
                        ) by {
                        if yy2 == yy {
                            assert(cmds@[cmds@.len() - 1] == (RenderCmd::Clear {
                                col: self.x,
                                row: row16,
                            }));
                            assert(cmd_is_clear_at(cmds@[cmds@.len() - 1], self.x, yy2 as u16));
                        } else {
                            let k0 = choose|k0: int|
                                cmds0.len() <= k0 < cmds_b.len() && cmd_is_clear_at(
                                    cmds_b[k0],
                                    self.x,
                                    yy2 as u16,
                                );
                            assert(cmds@[k0] == cmds_b[k0]);
                        }
                    }
                }
            }
            yy += 1;
        }

        let glitch = crate::charset::glitch_chars();
        let n = self.chars.len();
        let mut i: usize = 0;
        while i < n
            invariant
                self.wf(),
                n == self.chars@.len(),
                i <= n,
                glitch@ == glitch_seq(),
                head_cell == self.spec_head_cell(),
                config.wf(),
                sticky.wf(),
                sticky.entries@.len() <= sticky0.entries@.len(),
                forall|k: int|
                    0 <= k < sticky.entries@.len() ==> sticky0.entries@.contains(
                        #[trigger] sticky.entries@[k],
                    ),
                cmds@.len() >= cmds0.len(),
                cmds@.subrange(0, cmds0.len() as int) == cmds0,
                forall|k: int|
                    cmds0.len() <= k < cmds@.len() ==> self.spec_render_cmd_ok(
                        #[trigger] cmds@[k],
                        rows,
                        use_rgb_fade,
                        color_scheme,
                        sticky0,
                    ),
                forall|i2: int|
                    0 <= i2 < i && #[trigger] self.spec_index_visible(i2, rows) ==> exists|k: int|
                        cmds0.len() <= k < cmds@.len() && cmd_is_glyph_at(
                            #[trigger] cmds@[k],
                            self.x,
                            (self.spec_head_cell() - i2) as u16,
                        ),
                forall|i2: int|
                    0 <= i2 < i && #[trigger] self.spec_index_visible(i2, rows)
                        ==> !sticky.spec_contains_pos(
                        self.x,
                        (self.spec_head_cell() - i2) as u16,
                    ),
                forall|yy: int|
                    #[trigger] self.spec_cell_vacated(yy, rows) && !sticky0.spec_contains_pos(
                        self.x,
                        yy as u16,
                    ) ==> exists|k: int|
                        cmds0.len() <= k < cmds@.len() && cmd_is_clear_at(
                            #[trigger] cmds@[k],
                            self.x,
                            yy as u16,
                        ),
            decreases n - i,
        {
            let cy = head_cell - i as i64;
            if cy >= 0 && cy < rows as i64 {
                let row16 = cy as u16;
                let ghost sticky_in = *sticky;
                let ghost cmds_in = cmds@;
                self.emit_glyph(
                    i,
                    row16,
                    rows,
                    use_rgb_fade,
                    color_scheme,
                    &glitch,
                    sticky,
                    cmds,
                    config,
                );
                proof {
                    assert forall|k: int|
                        0 <= k < sticky.entries@.len() implies sticky0.entries@.contains(
                        #[trigger] sticky.entries@[k],
                    ) by {
                        let e = sticky.entries@[k];
                        assert(sticky_in.entries@.contains(e));
                        let j = choose|j: int|
                            0 <= j < sticky_in.entries@.len() && sticky_in.entries@[j] == e;
                        assert(sticky0.entries@.contains(sticky_in.entries@[j]));
                    }
                    assert(cmds@.subrange(0, cmds0.len() as int) =~= cmds0);
                    assert forall|k: int|
                        cmds0.len() <= k < cmds@.len() implies self.spec_render_cmd_ok(
                        #[trigger] cmds@[k],
                        rows,
                        use_rgb_fade,
                        color_scheme,
                        sticky0,
                    ) by {
                        if k < cmds_in.len() {
                            assert(cmds@[k] == cmds_in[k]);
                        } else {
                            assert(k == cmds@.len() - 1);
                            assert(cmds@[k] == cmds@.last());
                        }
                    }
                    assert forall|i2: int|
                        0 <= i2 < i + 1 && #[trigger] self.spec_index_visible(i2, rows)
                            implies exists|k: int|
                        cmds0.len() <= k < cmds@.len() && cmd_is_glyph_at(
                            #[trigger] cmds@[k],
                            self.x,
                            (self.spec_head_cell() - i2) as u16,
                        ) by {
                        if i2 == i {
                            assert(cmds@[cmds@.len() - 1] == cmds@.last());
                            assert(cmd_is_glyph_at(cmds@[cmds@.len() - 1], self.x, row16));
                        } else {
                            let k0 = choose|k0: int|
                                cmds0.len() <= k0 < cmds_in.len() && cmd_is_glyph_at(
                                    cmds_in[k0],
                                    self.x,
                                    (self.spec_head_cell() - i2) as u16,
                                );
                            assert(cmds@[k0] == cmds_in[k0]);
                        }
                    }
                    assert forall|yy: int|
                        #[trigger] self.spec_cell_vacated(yy, rows) && !sticky0.spec_contains_pos(
                        self.x,
                        yy as u16,
                    ) implies exists|k: int|
                        cmds0.len() <= k < cmds@.len() && cmd_is_clear_at(
                            #[trigger] cmds@[k],
                            self.x,
                            yy as u16,
                        ) by {
                        let k0 = choose|k0: int|
                            cmds0.len() <= k0 < cmds_in.len() && cmd_is_clear_at(
                                cmds_in[k0],
                                self.x,
                                yy as u16,
                            );
                        assert(cmds@[k0] == cmds_in[k0]);
                    }
                    assert forall|i2: int|
                        0 <= i2 < i + 1 && #[trigger] self.spec_index_visible(i2, rows)
                            implies !sticky.spec_contains_pos(
                        self.x,
                        (self.spec_head_cell() - i2) as u16,
                    ) by {
                        if i2 == i {
                            assert(!sticky.spec_contains_pos(self.x, row16));
                        } else {
                            if sticky.spec_contains_pos(
                                self.x,
                                (self.spec_head_cell() - i2) as u16,
                            ) {
                                let j = choose|j: int|
                                    0 <= j < sticky.entries@.len() && sticky.entries@[j].col
                                        == self.x && sticky.entries@[j].row == (
                                    self.spec_head_cell() - i2) as u16;
                                let e = sticky.entries@[j];
                                assert(sticky_in.entries@.contains(e));
                                let m = choose|m: int|
                                    0 <= m < sticky_in.entries@.len() && sticky_in.entries@[m]
                                        == e;
                                assert(sticky_in.spec_contains_pos(
                                    self.x,
                                    (self.spec_head_cell() - i2) as u16,
                                ));
                            }
                        }
                    }
                }
            } else {
                proof {
                    assert forall|i2: int|
                        0 <= i2 < i + 1 && #[trigger] self.spec_index_visible(i2, rows)
                            implies exists|k: int|
                        cmds0.len() <= k < cmds@.len() && cmd_is_glyph_at(
                            #[trigger] cmds@[k],
                            self.x,
                            (self.spec_head_cell() - i2) as u16,
                        ) by {
                        assert(i2 != i);
                    }
                    assert forall|i2: int|
                        0 <= i2 < i + 1 && #[trigger] self.spec_index_visible(i2, rows)
                            implies !sticky.spec_contains_pos(
                        self.x,
                        (self.spec_head_cell() - i2) as u16,
                    ) by {
                        assert(i2 != i);
                    }
                }
            }
            i += 1;
        }
    }

    /// One visible glyph of the trail: rolls flicker and glitch, picks
    /// the color for the glyph's place in the gradient, removes any
    /// stuck entry at the cell, and appends the drawing command.
    fn emit_glyph(
        &self,
        i: usize,
        row16: u16,
        rows: u16,
        use_rgb_fade: bool,
        color_scheme: MatrixColorScheme,
        glitch: &Vec<char>,
        sticky: &mut StuckTable,
        cmds: &mut Vec<RenderCmd>,
        config: &Config,
    )
        requires
            self.wf(),
            old(sticky).wf(),
            config.wf(),
            glitch@ == glitch_seq(),
            i < self.length,
            row16 < rows,
            row16 as int == self.spec_head_cell() - i,
        ensures
            final(sticky).wf(),
            final(sticky).entries@.len() <= old(sticky).entries@.len(),
            forall|k: int|
                0 <= k < final(sticky).entries@.len() ==> old(sticky).entries@.contains(
                    #[trigger] final(sticky).entries@[k],
                ),
            final(cmds)@.len() == old(cmds)@.len() + 1,
            final(cmds)@.subrange(0, old(cmds)@.len() as int) == old(cmds)@,
            forall|s0: StuckTable|
                self.spec_render_cmd_ok(
                    #[trigger] final(cmds)@.last(),
                    rows,
                    use_rgb_fade,
                    color_scheme,
                    s0,
                ),
            cmd_is_glyph_at(final(cmds)@.last(), self.x, row16),
            !final(sticky).spec_contains_pos(self.x, row16),
    {
        let flicker = rand_ppm() < config.flicker_ppm;
        let glitch_roll = rand_ppm() < config.glitch_ppm;
        let color = if use_rgb_fade {
            if i == 0 {
                RenderColor::Solid(color_scheme.get_colors().0)
            } else {
                let base = color_scheme.get_base_rgb();
                RenderColor::Fade {
                    r: base.0,
                    g: base.1,
                    b: base.2,
                    index: i,
                    length: self.length,
                }
            }
        } else {
            let five = color_scheme.get_colors();
            RenderColor::Solid(
                if i == 0 {
                    five.0
                } else if i <= 3 {
                    five.1
                } else if i <= 8 {
                    five.2
                } else if i <= 15 {
                    five.3
                } else {
                    five.4
                },
            )
        };
        let display: char;
        if glitch_roll {
            let gi = rand_index(glitch.len());
            display = copy_glyph(glitch, gi);
            proof {
                assert(glitch_seq()[gi as int] == display);
            }
        } else if flicker {
            display = ' ';
        } else {
            display = copy_glyph(&self.chars, i);
        }
        sticky.remove(self.x, row16);
        proof {
            if old(sticky).spec_contains_pos(self.x, row16) {
                let j = choose|j: int|
                    0 <= j < old(sticky).entries@.len() && old(sticky).entries@[j].col == self.x
                        && old(sticky).entries@[j].row == row16 && sticky.entries@ == old(
                        sticky,
                    ).entries@.remove(j);
                assert forall|k: int|
                    0 <= k < sticky.entries@.len() implies old(sticky).entries@.contains(
                    #[trigger] sticky.entries@[k],
                ) by {
                    if k < j {
                        assert(sticky.entries@[k] == old(sticky).entries@[k]);
                    } else {
                        assert(sticky.entries@[k] == old(sticky).entries@[k + 1]);
                    }
                }
            }
        }
        cmds.push(RenderCmd::Glyph { col: self.x, row: row16, color, glyph: display });
        proof {
            assert(cmds@.subrange(0, old(cmds)@.len() as int) =~= old(cmds)@);
            assert(color == spec_glyph_color(
                color_scheme,
                use_rgb_fade,
                self.spec_head_cell() - row16,
                self.length,
            ));
        }
    }

    /// Decides, for a drop that has just expired, whether it leaves a
    /// stuck glyph behind: a single roll of the configured chance, and
    /// on a hit the trail's last glyph at a random visible row of this
    /// drop's column. A drop that has not expired, or a screen with no
    /// rows, leaves nothing.
    pub fn should_leave_sticky(&self, rows: u16, config: &Config) -> (r: Option<(u16, u16, char)>)
        requires
            self.wf(),
            config.wf(),
        ensures
            match r {
                Some(t) => self.spec_expired(rows) && rows > 0 && t.0 == self.x && t.1 < rows
                    && t.2 == self.chars@[self.length - 1],
                None => true,
            },
            !self.spec_expired(rows) ==> r is None,
            rows == 0 ==> r is None,
    {
        let threshold = (rows as i64 + self.length as i64) * POS_SCALE;
        if self.y_milli > threshold && rows > 0 {
            if rand_ppm() < config.stuck_ppm {
                let last = self.chars[self.length - 1];
                let stick_row = rand_index(rows as usize) as u16;
                return Some((self.x, stick_row, last));
            }
        }
        None
    }
}

/// The screen cell a milli-position falls in: the floor of the
/// position in cells, computed without signed division.
fn cell_of_milli(v: i64) -> (r: i64)
    requires
        -40_000 <= v <= POS_CAP_MILLI,
    ensures
        r == spec_cell_of_milli(v as int),
{
    (((v + 40_000) as u64) / 1000) as i64 - 40
}

/// Reads one glyph out of a trail buffer.
fn copy_glyph(chars: &Vec<char>, i: usize) -> (r: char)
    requires
        i < chars@.len(),
    ensures
        r == chars@[i as int],
{
    chars[i]
}

} // verus!
