//! The frame engine: owns the drop grid, the stuck-glyph table and the
//! configuration, and turns timestamps and input events into render
//! commands, one frame at a time.
//!
//! The embedding program runs the wall-clock loop: it polls input,
//! forwards quit and resize events, calls `frame` with the current
//! time, draws the returned commands, and on exit calls `finish` to
//! learn whether the terminal still needs restoring.

use vstd::prelude::*;
use crate::colors::MatrixColorScheme;
use crate::config::Config;
use crate::drops::{MatrixDrop, POS_SCALE, spec_advanced};
use crate::render::{RenderCmd, RenderColor, cmd_col, cmd_is_glyph_at, cmd_row};
use crate::rng::{rand_ppm, shuffle_columns};
use crate::stuck::{StuckTable, spec_retained};
use vstd::pervasive::VecAdditionalExecFns;

verus! {

broadcast use vstd::seq_lib::group_to_multiset_ensures;

/// How long after a spawn check the next one is due, in milliseconds.
pub const SPAWN_INTERVAL_MS: u64 = 200;

/// Chance per column of reseeding right after a resize.
pub const RESEED_PPM: u32 = 300_000;

/// Where the engine stands in its life: running frames, draining
/// after a quit was requested, or stopped with the terminal restored.
#[derive(Clone, Copy, Debug, PartialEq, Eq, Structural)]
pub enum EnginePhase {
    Running,
    Draining,
    Stopped,
}

/// The animation engine.
pub struct Engine {
    /// Screen width in columns; one drop slot per column.
    pub cols: u16,
    /// Screen height in rows.
    pub rows: u16,
    /// One optional drop per column; `None` means the column is empty
    /// and eligible for spawning.
    pub drops: Vec<Option<MatrixDrop>>,
    /// Glyphs left behind by expired drops.
    pub stuck: StuckTable,
    /// The shared tunables, owned for the run's duration.
    pub config: Config,
    /// The gradient selected at startup.
    pub color_scheme: MatrixColorScheme,
    /// The palette every drop draws glyphs from, owned by the engine.
    pub charset: Vec<char>,
    /// Whether glyphs fade continuously instead of by buckets.
    pub rgb_fade: bool,
    /// Whether expired drops may leave stuck glyphs.
    pub enable_stuck: bool,
    /// When the spawn pass last ran.
    pub last_spawn_ms: u64,
    /// Where the engine stands in its life.
    pub phase: EnginePhase,
}

/// A column's slot is either empty or holds a well-formed drop that
/// sits in that very column.
pub open spec fn slot_wf(slot: Option<MatrixDrop>, i: int) -> bool {
    match slot {
        Some(d) => d.wf() && d.x == i,
        None => true,
    }
}

/// How many of the first `n` slots hold a drop.
pub open spec fn occupied_upto(s: Seq<Option<MatrixDrop>>, n: int) -> int
    decreases n,
{
    if n <= 0 {
        0
    } else {
        occupied_upto(s, n - 1) + if s[n - 1] is Some {
            1int
        } else {
            0int
        }
    }
}

/// How many slots of a grid hold a drop.
pub open spec fn occupied_count(s: Seq<Option<MatrixDrop>>) -> int {
    occupied_upto(s, s.len() as int)
}

/// Writing one slot changes the occupied count by the difference at
/// that slot alone.
proof fn lemma_occupied_update(s: Seq<Option<MatrixDrop>>, i: int, v: Option<MatrixDrop>, n: int)
    requires
        0 <= i < s.len(),
        n <= s.len(),
    ensures
        occupied_upto(s.update(i, v), n) == if i < n {
            occupied_upto(s, n) - (if s[i] is Some {
                1int
            } else {
                0int
            }) + (if v is Some {
                1int
            } else {
                0int
            })
        } else {
            occupied_upto(s, n)
        },
    decreases n,
{
    if n > 0 {
        lemma_occupied_update(s, i, v, n - 1);
    }
}

/// Whether a drop survives one integration step on a screen of
/// `rows` rows: its advanced head has not yet fully left the screen.
pub open spec fn spec_slot_survives(d: MatrixDrop, rows: u16, elapsed_ms: u32, framerate: u32) -> bool {
    spec_advanced(d.y_milli, d.speed_milli, elapsed_ms, framerate) <= (rows as int
        + d.length as int) * (POS_SCALE as int)
}

/// What one frame does to the occupied column `i` while running on a
/// screen with rows: the drop advances by its integration step and
/// remembers its prior position, and once the advanced head has fully
/// left the screen the slot instead holds a freshly constructed
/// replacement in the same column. The slot never empties.
pub open spec fn spec_frame_slot_ok(
    d: MatrixDrop,
    slot2: Option<MatrixDrop>,
    i: int,
    rows: u16,
    elapsed_ms: u32,
    framerate: u32,
) -> bool {
    match slot2 {
        Some(d2) => {
            if spec_slot_survives(d, rows, elapsed_ms, framerate) {
                &&& d2.x == d.x
                &&& d2.length == d.length
                &&& d2.prev_y_milli == d.y_milli
                &&& d2.y_milli == spec_advanced(d.y_milli, d.speed_milli, elapsed_ms, framerate)
            } else {
                &&& d2.x == i
                &&& d2.y_milli == -(d2.length as int) * (POS_SCALE as int)
                &&& d2.prev_y_milli == d2.y_milli
            }
        },
        None => false,
    }
}

/// Whether every visible glyph of the drop has a drawing command in
/// `cmds` at its cell.
pub open spec fn spec_glyphs_all_drawn(d2: MatrixDrop, rows: u16, cmds: Seq<RenderCmd>) -> bool {
    forall|gi: int|
        #[trigger] d2.spec_index_visible(gi, rows) ==> exists|k: int|
            0 <= k < cmds.len() && cmd_is_glyph_at(
                #[trigger] cmds[k],
                d2.x,
                (d2.spec_head_cell() - gi) as u16,
            )
}

/// A grid of empty slots holds no drop.
proof fn lemma_occupied_all_none(s: Seq<Option<MatrixDrop>>, n: int)
    requires
        n <= s.len(),
        forall|j: int| 0 <= j < s.len() ==> s[j] is None,
    ensures
        occupied_upto(s, n) == 0,
    decreases n,
{
    if n > 0 {
        lemma_occupied_all_none(s, n - 1);
    }
}

impl Engine {
    /// The engine's invariant: one slot per column, each slot sound,
    /// a non-empty palette, sound tunables, and a stuck table whose
    /// entries sit on the screen and which respects its capacity.
    pub open spec fn wf(&self) -> bool {
        &&& self.drops@.len() == self.cols as int
        &&& forall|i: int| 0 <= i < self.drops@.len() ==> slot_wf(#[trigger] self.drops@[i], i)
        &&& self.charset@.len() >= 1
        &&& self.config.wf()
        &&& self.stuck.wf()
        &&& forall|k: int|
            0 <= k < self.stuck.entries@.len() ==> (#[trigger] self.stuck.entries@[k]).col
                < self.cols && self.stuck.entries@[k].row < self.rows
        &&& (self.config.stuck_capacity != 0 ==> self.stuck.entries@.len()
            <= self.config.stuck_capacity)
    }

    /// Builds the engine for a screen of `cols` by `rows` cells and
    /// seeds up to `initial_drops` distinct random columns. A screen
    /// with no rows or no columns starts empty.
    pub fn new(
        cols: u16,
        rows: u16,
        initial_drops: usize,
        use_rgb_fade: bool,
        enable_stuck: bool,
        charset: Vec<char>,
        config: Config,
        color_scheme: MatrixColorScheme,
    ) -> (r: Engine)
        requires
            charset@.len() >= 1,
            config.wf(),
        ensures
            r.wf(),
            r.phase is Running,
            r.cols == cols,
            r.rows == rows,
            r.stuck.entries@.len() == 0,
            r.config == config,
            r.charset@ == charset@,
            r.rgb_fade == use_rgb_fade,
            r.enable_stuck == enable_stuck,
            r.color_scheme == color_scheme,
            occupied_count(r.drops@) == if rows > 0 && cols > 0 {
                if initial_drops < cols as usize {
                    initial_drops as int
                } else {
                    cols as int
                }
            } else {
                0int
            },
    {
        let mut drops: Vec<Option<MatrixDrop>> = Vec::new();
        let mut x: usize = 0;
        while x < cols as usize
            invariant
                drops@.len() == x,
                x <= cols as usize,
                forall|i: int| 0 <= i < x ==> drops@[i] is None,
            decreases cols as usize - x,
        {
            drops.push(None);
            x += 1;
        }
        let mut engine = Engine {
            cols,
            rows,
            drops,
            stuck: StuckTable::new(),
            config,
            color_scheme,
            charset,
            rgb_fade: use_rgb_fade,
            enable_stuck,
            last_spawn_ms: 0,
            phase: EnginePhase::Running,
        };
        if rows > 0 && cols > 0 {
            let mut columns: Vec<u16> = Vec::new();
            let mut c: usize = 0;
            while c < cols as usize
                invariant
                    columns@.len() == c,
                    c <= cols as usize,
                    forall|i: int| 0 <= i < c ==> columns@[i] == i,
                decreases cols as usize - c,
            {
                columns.push(c as u16);
                c += 1;
            }
            let ghost seeded = columns@;
            shuffle_columns(&mut columns);
            proof {
                assert forall|j: int| 0 <= j < columns@.len() implies columns@[j] < cols by {
                    assert(columns@.contains(columns@[j]));
                    assert(columns@.to_multiset().count(columns@[j]) > 0);
                    assert(seeded.to_multiset().count(columns@[j]) > 0);
                    assert(seeded.contains(columns@[j]));
                    let m = choose|m: int| 0 <= m < seeded.len() && seeded[m] == columns@[j];
                    assert(seeded[m] == m as u16);
                }
                assert(seeded.no_duplicates());
                seeded.lemma_multiset_has_no_duplicates();
                columns@.lemma_multiset_has_no_duplicates_conv();
                lemma_occupied_all_none(engine.drops@, engine.drops@.len() as int);
            }
            let limit = if initial_drops < cols as usize {
                initial_drops
            } else {
                cols as usize
            };
            let mut s: usize = 0;
            while s < limit
                invariant
                    limit <= columns@.len(),
                    s <= limit,
                    forall|j: int| 0 <= j < columns@.len() ==> #[trigger] columns@[j] < engine.cols,
                    engine.cols == cols,
                    engine.rows == rows,
                    engine.phase is Running,
                    engine.drops@.len() == engine.cols as int,
                    forall|i: int|
                        0 <= i < engine.drops@.len() ==> slot_wf(#[trigger] engine.drops@[i], i),
                    engine.charset@.len() >= 1,
                    engine.config.wf(),
                    engine.config == config,
                    engine.charset@ == charset@,
                    engine.rgb_fade == use_rgb_fade,
                    engine.enable_stuck == enable_stuck,
                    engine.color_scheme == color_scheme,
                    engine.stuck.entries@.len() == 0,
                    engine.stuck.wf(),
                    columns@.no_duplicates(),
                    occupied_count(engine.drops@) == s as int,
                    forall|j: int| #![trigger columns@[j]]
                        s <= j < limit ==> engine.drops@[columns@[j] as int] is None,
                decreases limit - s,
            {
                let col = columns[s];
                let d = MatrixDrop::new(col, rows, &engine.charset, &engine.config);
                let ghost pre = engine.drops@;
                engine.drops.set(col as usize, Some(d));
                proof {
                    assert forall|i: int|
                        0 <= i < engine.drops@.len() implies slot_wf(
                        #[trigger] engine.drops@[i],
                        i,
                    ) by {
                        if i == col as int {
                            assert(engine.drops@[i] == Some(d));
                        } else {
                            assert(engine.drops@[i] == pre[i]);
                        }
                    }
                    assert(pre[col as int] is None);
                    lemma_occupied_update(pre, col as int, Some(d), pre.len() as int);
                    assert forall|j: int| #![trigger columns@[j]]
                        s + 1 <= j < limit implies engine.drops@[columns@[j] as int] is None by {
                        assert(columns@[j] != columns@[s as int]);
                        assert(engine.drops@[columns@[j] as int] == pre[columns@[j] as int]);
                    }
                }
                s += 1;
            }
        } else {
            proof {
                lemma_occupied_all_none(engine.drops@, engine.drops@.len() as int);
            }
        }
        engine
    }

    /// Whether the engine is still producing frames.
    pub fn is_running(&self) -> (r: bool)
        ensures
            r == (self.phase is Running),
    {
        match self.phase {
            EnginePhase::Running => true,
            _ => false,
        }
    }

    /// The engine after the quit signal: draining unless already
    /// stopped.
    pub open spec fn spec_after_quit(e: Engine) -> Engine {
        Engine {
            phase: if e.phase is Stopped {
                EnginePhase::Stopped
            } else {
                EnginePhase::Draining
            },
            ..e
        }
    }

    /// The engine after `finish`: stopped, whatever came before.
    pub open spec fn spec_after_finish(e: Engine) -> Engine {
        Engine { phase: EnginePhase::Stopped, ..e }
    }

    /// Whether a `finish` call on this engine asks the embedder to
    /// restore the terminal.
    pub open spec fn spec_finish_restores(e: Engine) -> bool {
        !(e.phase is Stopped)
    }

    /// Asks the engine to shut down: the shared signal a quit key and
    /// an interrupt both raise. A running engine starts draining; a
    /// stopped one stays stopped.
    pub fn request_quit(&mut self)
        ensures
            *final(self) == Engine::spec_after_quit(*old(self)),
            old(self).wf() ==> final(self).wf(),
    {
        match self.phase {
            EnginePhase::Stopped => {},
            _ => {
                self.phase = EnginePhase::Draining;
            },
        }
    }

    /// Ends the run. Returns whether the terminal must be restored:
    /// true exactly once, on the first call, so the restore sequence
    /// runs exactly once however the run ended.
    pub fn finish(&mut self) -> (restore: bool)
        ensures
            *final(self) == Engine::spec_after_finish(*old(self)),
            restore == Engine::spec_finish_restores(*old(self)),
            old(self).wf() ==> final(self).wf(),
    {
        let was_stopped = match self.phase {
            EnginePhase::Stopped => true,
            _ => false,
        };
        self.phase = EnginePhase::Stopped;
        !was_stopped
    }

    /// Adopts a new screen geometry: drops the stuck glyphs, whose
    /// cells may no longer exist, and rebuilds the grid, reseeding
    /// each column with a fixed chance (none on a screen with no
    /// rows).
    pub fn handle_resize(&mut self, new_cols: u16, new_rows: u16)
        requires
            old(self).wf(),
        ensures
            final(self).wf(),
            final(self).cols == new_cols,
            final(self).rows == new_rows,
            final(self).stuck.entries@.len() == 0,
            final(self).phase == old(self).phase,
            final(self).config == old(self).config,
            final(self).charset@ == old(self).charset@,
            final(self).enable_stuck == old(self).enable_stuck,
            final(self).rgb_fade == old(self).rgb_fade,
    {
        self.cols = new_cols;
        self.rows = new_rows;
        self.stuck.clear();
        let mut drops: Vec<Option<MatrixDrop>> = Vec::new();
        let mut x: usize = 0;
        while x < new_cols as usize
            invariant
                self.charset@.len() >= 1,
                self.config.wf(),
                drops@.len() == x,
                x <= new_cols as usize,
                forall|i: int|
                    0 <= i < x ==> match #[trigger] drops@[i] {
                        Some(d) => d.wf() && d.x == i,
                        None => true,
                    },
            decreases new_cols as usize - x,
        {
            if new_rows > 0 && rand_ppm() < RESEED_PPM {
                let d = MatrixDrop::new(x as u16, new_rows, &self.charset, &self.config);
                drops.push(Some(d));
            } else {
                drops.push(None);
            }
            x += 1;
        }
        self.drops = drops;
    }

    /// One frame while running: purges stale stuck glyphs, spawns new
    /// drops in empty columns when the spawn interval has passed,
    /// emits the stuck glyphs first so live drops paint over them,
    /// then updates every drop - replacing the expired ones, which may
    /// first leave a stuck glyph - and collects every drawing command.
    /// Every command stays on the screen. A drained or stopped engine
    /// does nothing.
    pub fn frame(&mut self, now_ms: u64, elapsed_ms: u32) -> (cmds: Vec<RenderCmd>)
        requires
            old(self).wf(),
        ensures
            final(self).wf(),
            final(self).cols == old(self).cols,
            final(self).rows == old(self).rows,
            final(self).phase == old(self).phase,
            final(self).config == old(self).config,
            final(self).charset@ == old(self).charset@,
            final(self).enable_stuck == old(self).enable_stuck,
            final(self).rgb_fade == old(self).rgb_fade,
            forall|k: int|
                0 <= k < cmds@.len() ==> cmd_col(#[trigger] cmds@[k]) < final(self).cols
                    && cmd_row(cmds@[k]) < final(self).rows,
            forall|i: int|
                0 <= i < old(self).drops@.len() && (#[trigger] old(self).drops@[i]) is Some
                    ==> final(self).drops@[i] is Some,
            old(self).phase is Running && old(self).rows > 0 ==> forall|i: int|
                0 <= i < old(self).drops@.len() ==> ((#[trigger] old(self).drops@[i]) matches Some(
                    d,
                ) ==> spec_frame_slot_ok(
                    d,
                    final(self).drops@[i],
                    i,
                    old(self).rows,
                    elapsed_ms,
                    old(self).config.framerate,
                )),
            old(self).phase is Running && old(self).rows > 0 ==> forall|i: int|
                0 <= i < old(self).drops@.len() ==> ((#[trigger] old(self).drops@[i]) matches Some(
                    d,
                ) && spec_slot_survives(d, old(self).rows, elapsed_ms, old(self).config.framerate)
                    ==> (final(self).drops@[i] matches Some(d2) && spec_glyphs_all_drawn(
                    d2,
                    old(self).rows,
                    cmds@,
                ))),
            old(self).phase is Running ==> forall|k: int|
                0 <= k < final(self).stuck.entries@.len() ==> {
                    let e = #[trigger] final(self).stuck.entries@[k];
                    (old(self).stuck.entries@.contains(e) && (old(self).enable_stuck
                        ==> spec_retained(e, now_ms))) || e.at_ms == now_ms
                },
            !(old(self).phase is Running) ==> cmds@.len() == 0 && *final(self) == *old(self),
    {
        let mut cmds: Vec<RenderCmd> = Vec::new();
        let running = match self.phase {
            EnginePhase::Running => true,
            _ => false,
        };
        if !running {
            return cmds;
        }

        let ghost st0 = self.stuck;
        if self.enable_stuck {
            self.stuck.purge(now_ms);
            proof {
                assert forall|k: int|
                    0 <= k < self.stuck.entries@.len() implies (
                #[trigger] self.stuck.entries@[k]).col < self.cols && self.stuck.entries@[k].row
                    < self.rows by {
                    assert(st0.entries@.contains(self.stuck.entries@[k]));
                    let m = choose|m: int|
                        0 <= m < st0.entries@.len() && st0.entries@[m] == self.stuck.entries@[k];
                }
            }
        }
        let ghost stuck_purged = self.stuck;

        if now_ms > self.last_spawn_ms && now_ms - self.last_spawn_ms > SPAWN_INTERVAL_MS {
            if self.rows > 0 {
                let ghost snap = *self;
                let mut x: usize = 0;
                while x < self.cols as usize
                    invariant
                        self.wf(),
                        x <= self.cols as usize,
                        self.cols == snap.cols,
                        self.rows == snap.rows,
                        self.phase == snap.phase,
                        self.config == snap.config,
                        self.charset@ == snap.charset@,
                        self.enable_stuck == snap.enable_stuck,
                        self.rgb_fade == snap.rgb_fade,
                        self.last_spawn_ms == snap.last_spawn_ms,
                        self.stuck == snap.stuck,
                        self.rows > 0,
                        snap.drops@.len() == self.drops@.len(),
                        forall|i: int|
                            0 <= i < snap.drops@.len() && (#[trigger] snap.drops@[i]) is Some
                                ==> self.drops@[i] == snap.drops@[i],
                    decreases self.cols as usize - x,
                {
                    let ghost top = self.drops@;
                    let occupied = self.drops[x].is_some();
                    if !occupied && rand_ppm() < self.config.new_drop_ppm {
                        let d = MatrixDrop::new(x as u16, self.rows, &self.charset, &self.config);
                        self.drops.set(x, Some(d));
                    }
                    proof {
                        assert forall|i: int|
                            0 <= i < snap.drops@.len() && (#[trigger] snap.drops@[i]) is Some
                                implies self.drops@[i] == snap.drops@[i] by {
                            if i != x as int {
                                assert(self.drops@[i] == top[i]);
                            }
                        }
                    }
                    x += 1;
                }
            }
            self.last_spawn_ms = now_ms;
        }

        if self.enable_stuck {
            let five = self.color_scheme.get_colors();
            let stuck_color = five.2;
            let total = self.stuck.len();
            let ghost snap = *self;
            let mut k: usize = 0;
            while k < total
                invariant
                    *self == snap,
                    self.wf(),
                    total == self.stuck.entries@.len(),
                    k <= total,
                    forall|j: int|
                        0 <= j < cmds@.len() ==> cmd_col(#[trigger] cmds@[j]) < self.cols
                            && cmd_row(cmds@[j]) < self.rows,
                decreases total - k,
            {
                let e = self.stuck.get(k);
                if e.row < self.rows {
                    cmds.push(
                        RenderCmd::Glyph {
                            col: e.col,
                            row: e.row,
                            color: RenderColor::Solid(stuck_color),
                            glyph: e.glyph,
                        },
                    );
                }
                k += 1;
            }
        }

        let ghost pre_update = *self;
        if self.rows > 0 {
            let mut x: usize = 0;
            while x < self.cols as usize
                invariant
                    self.wf(),
                    x <= self.cols as usize,
                    self.cols == pre_update.cols,
                    self.rows == pre_update.rows,
                    self.phase == pre_update.phase,
                    self.config == pre_update.config,
                    self.charset@ == pre_update.charset@,
                    self.enable_stuck == pre_update.enable_stuck,
                    self.rgb_fade == pre_update.rgb_fade,
                    self.last_spawn_ms == pre_update.last_spawn_ms,
                    self.rows > 0,
                    forall|j: int|
                        0 <= j < cmds@.len() ==> cmd_col(#[trigger] cmds@[j]) < self.cols
                            && cmd_row(cmds@[j]) < self.rows,
                    pre_update.drops@.len() == self.drops@.len(),
                    forall|i: int|
                        0 <= i < pre_update.drops@.len() && (#[trigger] pre_update.drops@[i])
                            is Some ==> self.drops@[i] is Some,
                    forall|i: int|
                        x <= i < pre_update.drops@.len() ==> self.drops@[i] == (
                        #[trigger] pre_update.drops@[i]),
                    forall|i: int|
                        0 <= i < x ==> ((#[trigger] pre_update.drops@[i]) matches Some(d)
                            ==> spec_frame_slot_ok(
                            d,
                            self.drops@[i],
                            i,
                            pre_update.rows,
                            elapsed_ms,
                            pre_update.config.framerate,
                        )),
                    forall|i: int|
                        0 <= i < x ==> ((#[trigger] pre_update.drops@[i]) matches Some(d)
                            && spec_slot_survives(
                            d,
                            pre_update.rows,
                            elapsed_ms,
                            pre_update.config.framerate,
                        ) ==> (self.drops@[i] matches Some(d2) && spec_glyphs_all_drawn(
                            d2,
                            pre_update.rows,
                            cmds@,
                        ))),
                    forall|m: int|
                        0 <= m < self.stuck.entries@.len()
                            ==> pre_update.stuck.entries@.contains(
                            #[trigger] self.stuck.entries@[m],
                        ) || self.stuck.entries@[m].at_ms == now_ms,
                decreases self.cols as usize - x,
            {
                let ghost top = self.drops@;
                let ghost cmds_top = cmds@;
                let mut slot: Option<MatrixDrop> = None;
                self.drops.set_and_swap(x, &mut slot);
                match slot {
                    Some(mut d) => {
                        let ghost d_pre = d;
                        let reset = d.update(elapsed_ms, self.rows, &self.charset, &self.config);
                        if reset {
                            if self.enable_stuck {
                                match d.should_leave_sticky(self.rows, &self.config) {
                                    Some((sc, sr, sg)) => {
                                        let cap = self.config.stuck_capacity;
                                        let ghost st_in = self.stuck;
                                        self.stuck.insert(sc, sr, sg, now_ms, cap);
                                        proof {
                                            assert forall|m: int|
                                                0 <= m < self.stuck.entries@.len() implies ((
                                            #[trigger] self.stuck.entries@[m]).col < self.cols
                                                && self.stuck.entries@[m].row < self.rows) && (
                                            pre_update.stuck.entries@.contains(
                                                self.stuck.entries@[m],
                                            ) || self.stuck.entries@[m].at_ms == now_ms) by {
                                                if self.stuck.entries@[m] != (
                                                crate::stuck::StuckEntry {
                                                    col: sc,
                                                    row: sr,
                                                    glyph: sg,
                                                    at_ms: now_ms,
                                                }) {
                                                    assert(st_in.entries@.contains(
                                                        self.stuck.entries@[m],
                                                    ));
                                                    let w = choose|w: int|
                                                        0 <= w < st_in.entries@.len()
                                                            && st_in.entries@[w]
                                                            == self.stuck.entries@[m];
                                                }
                                            }
                                        }
                                    },
                                    None => {},
                                }
                            }
                            let nd = MatrixDrop::new(
                                x as u16,
                                self.rows,
                                &self.charset,
                                &self.config,
                            );
                            self.drops.set(x, Some(nd));
                            proof {
                                assert(pre_update.drops@[x as int] == Some(d_pre));
                                assert(!spec_slot_survives(
                                    d_pre,
                                    pre_update.rows,
                                    elapsed_ms,
                                    pre_update.config.framerate,
                                ));
                                assert(spec_frame_slot_ok(
                                    d_pre,
                                    self.drops@[x as int],
                                    x as int,
                                    pre_update.rows,
                                    elapsed_ms,
                                    pre_update.config.framerate,
                                ));
                            }
                        } else {
                            let ghost st_in = self.stuck;
                            let ghost cmds_in = cmds@;
                            d.render(
                                self.rows,
                                self.rgb_fade,
                                self.color_scheme,
                                &mut self.stuck,
                                &mut cmds,
                                &self.config,
                            );
                            self.drops.set(x, Some(d));
                            proof {
                                assert forall|m: int|
                                    0 <= m < self.stuck.entries@.len() implies ((
                                #[trigger] self.stuck.entries@[m]).col < self.cols
                                    && self.stuck.entries@[m].row < self.rows) && (
                                pre_update.stuck.entries@.contains(self.stuck.entries@[m])
                                    || self.stuck.entries@[m].at_ms == now_ms) by {
                                    assert(st_in.entries@.contains(self.stuck.entries@[m]));
                                    let w = choose|w: int|
                                        0 <= w < st_in.entries@.len() && st_in.entries@[w]
                                            == self.stuck.entries@[m];
                                }
                                assert forall|j: int|
                                    0 <= j < cmds@.len() implies cmd_col(#[trigger] cmds@[j])
                                    < self.cols && cmd_row(cmds@[j]) < self.rows by {
                                    if j < cmds_in.len() {
                                        assert(cmds@.subrange(0, cmds_in.len() as int)
                                            == cmds_in);
                                        assert(cmds@[j] == cmds_in[j]);
                                    } else {
                                        assert(d.spec_render_cmd_ok(
                                            cmds@[j],
                                            self.rows,
                                            self.rgb_fade,
                                            self.color_scheme,
                                            st_in,
                                        ));
                                    }
                                }
                                assert(pre_update.drops@[x as int] == Some(d_pre));
                                assert(spec_slot_survives(
                                    d_pre,
                                    pre_update.rows,
                                    elapsed_ms,
                                    pre_update.config.framerate,
                                ));
                                assert(spec_frame_slot_ok(
                                    d_pre,
                                    self.drops@[x as int],
                                    x as int,
                                    pre_update.rows,
                                    elapsed_ms,
                                    pre_update.config.framerate,
                                ));
                                assert forall|gi: int|
                                    #[trigger] d.spec_index_visible(gi, pre_update.rows)
                                        implies exists|k: int|
                                    0 <= k < cmds@.len() && cmd_is_glyph_at(
                                        #[trigger] cmds@[k],
                                        d.x,
                                        (d.spec_head_cell() - gi) as u16,
                                    ) by {
                                    let k0 = choose|k0: int|
                                        cmds_in.len() <= k0 < cmds@.len() && cmd_is_glyph_at(
                                            cmds@[k0],
                                            d.x,
                                            (d.spec_head_cell() - gi) as u16,
                                        );
                                }
                                assert(spec_glyphs_all_drawn(d, pre_update.rows, cmds@));
                            }
                        }
                    },
                    None => {
                        self.drops.set(x, None);
                    },
                }
                proof {
                    assert(cmds@.subrange(0, cmds_top.len() as int) =~= cmds_top);
                    assert forall|i: int|
                        x + 1 <= i < pre_update.drops@.len() implies self.drops@[i] == (
                    #[trigger] pre_update.drops@[i]) by {
                        assert(self.drops@[i] == top[i]);
                    }
                    assert forall|i: int|
                        0 <= i < pre_update.drops@.len() && (#[trigger] pre_update.drops@[i])
                            is Some implies self.drops@[i] is Some by {
                        if i != x as int {
                            assert(self.drops@[i] == top[i]);
                        }
                    }
                    assert forall|i: int|
                        0 <= i < x + 1 implies ((#[trigger] pre_update.drops@[i]) matches Some(
                        d,
                    ) ==> spec_frame_slot_ok(
                        d,
                        self.drops@[i],
                        i,
                        pre_update.rows,
                        elapsed_ms,
                        pre_update.config.framerate,
                    )) by {
                        if i < x as int {
                            assert(self.drops@[i] == top[i]);
                        }
                    }
                    assert forall|i: int|
                        0 <= i < x + 1 implies ((#[trigger] pre_update.drops@[i]) matches Some(
                        d,
                    ) && spec_slot_survives(
                        d,
                        pre_update.rows,
                        elapsed_ms,
                        pre_update.config.framerate,
                    ) ==> (self.drops@[i] matches Some(d2) && spec_glyphs_all_drawn(
                        d2,
                        pre_update.rows,
                        cmds@,
                    ))) by {
                        if i < x as int {
                            assert(self.drops@[i] == top[i]);
                            match top[i] {
                                Some(d2) => {
                                    if spec_glyphs_all_drawn(d2, pre_update.rows, cmds_top) {
                                        assert forall|gi: int|
                                            #[trigger] d2.spec_index_visible(
                                            gi,
                                            pre_update.rows,
                                        ) implies exists|k: int|
                                            0 <= k < cmds@.len() && cmd_is_glyph_at(
                                                #[trigger] cmds@[k],
                                                d2.x,
                                                (d2.spec_head_cell() - gi) as u16,
                                            ) by {
                                            let k0 = choose|k0: int|
                                                0 <= k0 < cmds_top.len() && cmd_is_glyph_at(
                                                    cmds_top[k0],
                                                    d2.x,
                                                    (d2.spec_head_cell() - gi) as u16,
                                                );
                                            assert(cmds@[k0] == cmds_top[k0]);
                                        }
                                        assert(spec_glyphs_all_drawn(
                                            d2,
                                            pre_update.rows,
                                            cmds@,
                                        ));
                                    }
                                },
                                None => {},
                            }
                        }
                    }
                }
                x += 1;
            }
        }

        proof {
            assert(pre_update.stuck == stuck_purged);
            assert forall|m: int|
                0 <= m < self.stuck.entries@.len() implies {
                let e = #[trigger] self.stuck.entries@[m];
                (old(self).stuck.entries@.contains(e) && (old(self).enable_stuck
                    ==> spec_retained(e, now_ms))) || e.at_ms == now_ms
            } by {
                let e = self.stuck.entries@[m];
                if e.at_ms != now_ms {
                    if self.rows == 0 {
                        assert(stuck_purged.entries@[m] == e);
                    }
                    assert(stuck_purged.entries@.contains(e));
                    let w = choose|w: int|
                        0 <= w < stuck_purged.entries@.len() && stuck_purged.entries@[w] == e;
                    if !self.enable_stuck {
                        assert(stuck_purged == st0);
                    }
                }
            }
            if self.rows > 0 {
                assert forall|i: int|
                    0 <= i < old(self).drops@.len() implies ((#[trigger] old(self).drops@[i])
                    matches Some(d) ==> spec_frame_slot_ok(
                    d,
                    self.drops@[i],
                    i,
                    old(self).rows,
                    elapsed_ms,
                    old(self).config.framerate,
                )) by {
                    if old(self).drops@[i] is Some {
                        assert(pre_update.drops@[i] == old(self).drops@[i]);
                    }
                }
                assert forall|i: int|
                    0 <= i < old(self).drops@.len() implies ((#[trigger] old(self).drops@[i])
                    matches Some(d) && spec_slot_survives(
                    d,
                    old(self).rows,
                    elapsed_ms,
                    old(self).config.framerate,
                ) ==> (self.drops@[i] matches Some(d2) && spec_glyphs_all_drawn(
                    d2,
                    old(self).rows,
                    cmds@,
                ))) by {
                    if old(self).drops@[i] is Some {
                        assert(pre_update.drops@[i] == old(self).drops@[i]);
                    }
                }
            }
        }

        cmds
    }
}

/// Issuing the quit signal during a run leads to exactly one
/// terminal-restore sequence: the signal never stops the engine by
/// itself, so the `finish` that follows asks for the restore, and
/// every `finish` after that one declines.
pub proof fn lemma_restore_exactly_once(e: Engine)
    requires
        !(e.phase is Stopped),
    ensures
        Engine::spec_finish_restores(Engine::spec_after_quit(e)),
        !Engine::spec_finish_restores(Engine::spec_after_finish(Engine::spec_after_quit(e))),
{
}

} // verus!
