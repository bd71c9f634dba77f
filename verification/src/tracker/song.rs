//! Song sequencing: which pattern row plays next, how many ticks it
//! lasts and at what tempo.
//!
//! The mixer that turns rows into PCM works in floating point and lives
//! with the audio front end; everything it needs to know about the
//! song's structure comes from [`Sequencer::next_row`]. A module may
//! revisit an order entry — many use `Bxx` to loop the whole song — so
//! each entry is allowed two passes, after which the song is over. That
//! is what makes even a song that jumps backwards forever finite.
use vstd::prelude::*;

use super::{module_wf, ModuleView, Module, Note, ORDER_LEN, ROWS};

verus! {

/// Passes allowed over one order entry.
pub const MAX_VISITS: u8 = 2;

/// Protracker's tempo at the start of a song: six ticks per row.
pub const START_SPEED: u32 = 6;

/// Protracker's tempo at the start of a song: 125 beats per minute.
pub const START_BPM: u32 = 125;

/// One row to play: where its cells are, and its timing.
#[derive(Debug, Clone, Copy, PartialEq, Eq, Structural)]
pub struct RowPlan {
    /// Index into the module's patterns.
    pub pattern: usize,
    /// Row within that pattern; its cells are the `channels` starting at
    /// `row * channels`.
    pub row: usize,
    /// Ticks the row lasts: the speed, times one more than any pattern
    /// delay.
    pub ticks: u32,
    /// Tempo; a tick lasts `2.5 / bpm` seconds.
    pub bpm: u32,
}

/// What the effects of one row amount to for the song's structure.
pub struct RowFx {
    /// Where to go after this row, `(order entry, row)`.
    pub jump: Option<(nat, nat)>,
    pub speed: u32,
    pub bpm: u32,
    /// `EEx`: repeat the row's ticks `x` more times.
    pub delay: u32,
    /// `F00`: the song ends here.
    pub stop: bool,
}

/// Where the song stands.
pub struct Sequencer {
    order_index: usize,
    row: usize,
    speed: u32,
    bpm: u32,
    /// Passes made over each order entry.
    visits: Vec<u8>,
    /// Has the pass over the current order entry been counted?
    entered: bool,
    done: bool,
}

/// A sequencer's state, with the visit counts taken as a sequence.
pub struct SequencerView {
    pub order_index: nat,
    pub row: nat,
    pub speed: u32,
    pub bpm: u32,
    pub visits: Seq<u8>,
    pub entered: bool,
    pub done: bool,
}

impl View for Sequencer {
    type V = SequencerView;

    closed spec fn view(&self) -> SequencerView {
        SequencerView {
            order_index: self.order_index as nat,
            row: self.row as nat,
            speed: self.speed,
            bpm: self.bpm,
            visits: self.visits@,
            entered: self.entered,
            done: self.done,
        }
    }
}

/// The state every sequencer keeps: one visit count per order entry,
/// none above the limit, a row inside the pattern and a tempo that
/// came from a byte.
pub open spec fn seq_inv(s: SequencerView) -> bool {
    &&& s.visits.len() == ORDER_LEN
    &&& forall|i: int| 0 <= i < ORDER_LEN ==> #[trigger] s.visits[i] <= MAX_VISITS
    &&& s.row < ROWS
    &&& s.speed <= 255
    &&& s.bpm <= 255
}

/// The start of a song.
pub open spec fn fresh() -> SequencerView {
    SequencerView {
        order_index: 0,
        row: 0,
        speed: START_SPEED,
        bpm: START_BPM,
        visits: Seq::new(ORDER_LEN as nat, |i: int| 0u8),
        entered: false,
        done: false,
    }
}

/// `Dxy`'s row number: the parameter read as two decimal digits.
pub open spec fn break_row(param: u8) -> nat {
    (param >> 4u8) as nat * 10 + (param & 0x0Fu8) as nat
}

/// One cell's effect on the row, with the song at order entry `oi`. Once
/// the song has stopped, later cells change nothing.
pub open spec fn apply_effect(fx: RowFx, n: Note, oi: nat) -> RowFx {
    if fx.stop {
        fx
    } else if n.effect == 0x0B {
        RowFx { jump: Some((n.param as nat, 0)), speed: fx.speed, bpm: fx.bpm, delay: fx.delay, stop: false }
    } else if n.effect == 0x0D {
        let r = break_row(n.param);
        let r = if r < ROWS - 1 {
            r
        } else {
            (ROWS - 1) as nat
        };
        RowFx { jump: Some((oi + 1, r)), speed: fx.speed, bpm: fx.bpm, delay: fx.delay, stop: false }
    } else if n.effect == 0x0F && n.param == 0 {
        RowFx { jump: fx.jump, speed: fx.speed, bpm: fx.bpm, delay: fx.delay, stop: true }
    } else if n.effect == 0x0F && n.param < 0x20 {
        RowFx { jump: fx.jump, speed: n.param as u32, bpm: fx.bpm, delay: fx.delay, stop: false }
    } else if n.effect == 0x0F {
        RowFx { jump: fx.jump, speed: fx.speed, bpm: n.param as u32, delay: fx.delay, stop: false }
    } else if n.effect == 0x0E && (n.param >> 4u8) == 0x0E {
        RowFx { jump: fx.jump, speed: fx.speed, bpm: fx.bpm, delay: (n.param & 0x0Fu8) as u32, stop: false }
    } else {
        fx
    }
}

/// The effects of the first `k` cells of the row starting at `base`,
/// taken in channel order from `init`.
pub open spec fn row_fx(cells: Seq<Note>, base: int, k: nat, oi: nat, init: RowFx) -> RowFx
    decreases k,
{
    if k == 0 {
        init
    } else {
        apply_effect(row_fx(cells, base, (k - 1) as nat, oi, init), cells[base + k - 1], oi)
    }
}

/// `s`, with the song over.
pub open spec fn ended(s: SequencerView) -> SequencerView {
    SequencerView { done: true, ..s }
}

/// One call of the sequencer: the state after it and the row it hands
/// out, `None` once the song is over.
///
/// The song ends when the order table runs out, names a pattern the
/// module lacks, or sends the song to an order entry for a third pass;
/// and at an `F00` cell. Otherwise the row plays, and afterwards the song
/// follows its last jump, or moves to the next row, or past the last row
/// to the next order entry.
pub open spec fn step(m: ModuleView, s: SequencerView) -> (SequencerView, Option<RowPlan>) {
    let oi = s.order_index;
    if s.done {
        (s, None)
    } else if oi >= m.song_len || m.order[oi as int] >= m.patterns.len() {
        (ended(s), None)
    } else if !s.entered && s.visits[oi as int] >= MAX_VISITS {
        (ended(s), None)
    } else {
        let visits = if s.entered {
            s.visits
        } else {
            s.visits.update(oi as int, (s.visits[oi as int] + 1) as u8)
        };
        let p = m.order[oi as int];
        let init = RowFx { jump: None, speed: s.speed, bpm: s.bpm, delay: 0, stop: false };
        let fx = row_fx(m.patterns[p as int], (s.row * m.channels) as int, m.channels, oi, init);
        let s1 = SequencerView { visits, entered: true, ..s };
        if fx.stop {
            (ended(s1), None)
        } else {
            let plan = RowPlan {
                pattern: p as usize,
                row: s.row as usize,
                ticks: (fx.speed * (fx.delay + 1)) as u32,
                bpm: fx.bpm,
            };
            let next = match fx.jump {
                Some((o, r)) => SequencerView { order_index: o, row: r, entered: false, ..s1 },
                None => if s.row + 1 < ROWS {
                    SequencerView { row: s.row + 1, ..s1 }
                } else {
                    SequencerView { order_index: oi + 1, row: 0, entered: false, ..s1 }
                },
            };
            (SequencerView { speed: fx.speed, bpm: fx.bpm, ..next }, Some(plan))
        }
    }
}

/// The state after `n` calls.
pub open spec fn after(m: ModuleView, s: SequencerView, n: nat) -> SequencerView
    decreases n,
{
    if n == 0 {
        s
    } else {
        after(m, step(m, s).0, (n - 1) as nat)
    }
}

/// Passes still allowed over the first `n` order entries.
pub open spec fn passes_left(v: Seq<u8>, n: nat) -> nat
    decreases n,
{
    if n == 0 {
        0
    } else {
        passes_left(v, (n - 1) as nat) + if v[n - 1] >= MAX_VISITS {
            0
        } else {
            (MAX_VISITS - v[n - 1]) as nat
        }
    }
}

/// An upper bound on the rows the song can still play: every pass left
/// over an order entry is worth a pattern, and the pattern under way is
/// worth its remaining rows.
pub open spec fn rows_left(s: SequencerView) -> nat {
    if s.done {
        0
    } else {
        (ROWS * passes_left(s.visits, ORDER_LEN as nat) + if s.entered {
            ROWS - s.row
        } else {
            0
        }) as nat
    }
}

/// The module's order table and patterns can be indexed as the
/// sequencer indexes them.
proof fn lemma_cell_in_range(m: ModuleView, p: int, row: nat, c: nat)
    requires
        module_wf(m),
        0 <= p < m.patterns.len(),
        row < ROWS,
        c < m.channels,
    ensures
        row * m.channels + c < m.patterns[p].len(),
        row * m.channels + c < ROWS * 8,
{
    assert(row * m.channels + c < ROWS * m.channels) by (nonlinear_arith)
        requires
            row < ROWS,
            c < m.channels,
    ;
    assert(ROWS * m.channels <= ROWS * 8) by (nonlinear_arith)
        requires
            m.channels <= 8,
    ;
}

proof fn lemma_passes_left_update(v: Seq<u8>, i: int, n: nat)
    requires
        0 <= i < v.len(),
        v[i] < MAX_VISITS,
        n <= v.len(),
    ensures
        passes_left(v.update(i, (v[i] + 1) as u8), n) == if i < n {
            (passes_left(v, n) - 1) as nat
        } else {
            passes_left(v, n)
        },
        i < n ==> passes_left(v, n) >= 1,
    decreases n,
{
    if n > 0 {
        lemma_passes_left_update(v, i, (n - 1) as nat);
    }
}

proof fn lemma_fresh_passes(n: nat)
    requires
        n <= ORDER_LEN,
    ensures
        passes_left(fresh().visits, n) == MAX_VISITS * n,
    decreases n,
{
    if n > 0 {
        lemma_fresh_passes((n - 1) as nat);
    }
}

/// A call of the sequencer keeps its state valid and, whenever it hands
/// out a row, lowers the bound on the rows the song can still play.
pub proof fn lemma_each_row_is_paid_for(m: ModuleView, s: SequencerView)
    requires
        module_wf(m),
        seq_inv(s),
    ensures
        seq_inv(step(m, s).0),
        step(m, s).1 is Some ==> rows_left(step(m, s).0) < rows_left(s),
        step(m, s).1 is None ==> step(m, s).0.done,
{
    let oi = s.order_index;
    if !s.done && oi < m.song_len && m.order[oi as int] < m.patterns.len() && !(!s.entered
        && s.visits[oi as int] >= MAX_VISITS) {
        let p = m.order[oi as int];
        let init = RowFx { jump: None, speed: s.speed, bpm: s.bpm, delay: 0, stop: false };
        lemma_row_fx_bounds(m.patterns[p as int], (s.row * m.channels) as int, m.channels, oi, init);
        if !s.entered {
            lemma_passes_left_update(s.visits, oi as int, ORDER_LEN as nat);
        }
        let next = step(m, s).0;
        assert forall|i: int| 0 <= i < ORDER_LEN implies #[trigger] next.visits[i] <= MAX_VISITS by {
        }
    }
}

/// Every tempo a row can set came from a byte, and a row break stays
/// inside the pattern.
proof fn lemma_row_fx_bounds(cells: Seq<Note>, base: int, k: nat, oi: nat, init: RowFx)
    requires
        init.speed <= 255,
        init.bpm <= 255,
        init.delay <= 255,
        init.jump is None,
    ensures
        row_fx(cells, base, k, oi, init).speed <= 255,
        row_fx(cells, base, k, oi, init).bpm <= 255,
        row_fx(cells, base, k, oi, init).delay <= 255,
        row_fx(cells, base, k, oi, init).jump matches Some((o, r)) ==> r < ROWS,
    decreases k,
{
    if k > 0 {
        lemma_row_fx_bounds(cells, base, (k - 1) as nat, oi, init);
    }
}

/// However its order table jumps — even straight back to itself — a
/// song ends: from any valid state, it is over after one call more than
/// the rows it can still play.
pub proof fn lemma_every_song_ends(m: ModuleView, s: SequencerView)
    requires
        module_wf(m),
        seq_inv(s),
    ensures
        after(m, s, rows_left(s) + 1).done,
    decreases rows_left(s),
{
    lemma_each_row_is_paid_for(m, s);
    let (next, row) = step(m, s);
    if s.done {
        lemma_done_stays_done(m, s, rows_left(s) + 1);
    } else if row is None {
        lemma_done_stays_done(m, next, rows_left(s));
    } else {
        lemma_every_song_ends(m, next);
        lemma_done_after_more_calls(m, next, rows_left(next) + 1, rows_left(s));
    }
}

/// Once a cell has stopped the song, the cells after it change nothing.
proof fn lemma_stop_persists(cells: Seq<Note>, base: int, k: nat, k2: nat, oi: nat, init: RowFx)
    requires
        row_fx(cells, base, k, oi, init).stop,
        k <= k2,
    ensures
        row_fx(cells, base, k2, oi, init) == row_fx(cells, base, k, oi, init),
    decreases k2,
{
    if k2 > k {
        lemma_stop_persists(cells, base, k, (k2 - 1) as nat, oi, init);
    }
}

proof fn lemma_done_stays_done(m: ModuleView, s: SequencerView, n: nat)
    requires
        s.done,
    ensures
        after(m, s, n) == s,
    decreases n,
{
    if n > 0 {
        lemma_done_stays_done(m, s, (n - 1) as nat);
    }
}

proof fn lemma_done_after_more_calls(m: ModuleView, s: SequencerView, n: nat, k: nat)
    requires
        after(m, s, n).done,
        n <= k,
    ensures
        after(m, s, k).done,
    decreases n,
{
    if n == 0 {
        lemma_done_stays_done(m, s, k);
    } else {
        lemma_done_after_more_calls(m, step(m, s).0, (n - 1) as nat, (k - 1) as nat);
    }
}

/// A fresh sequencer ends every song within two passes over each order
/// entry: at most `2 * ORDER_LEN * ROWS` rows play.
pub proof fn lemma_songs_are_bounded(m: ModuleView)
    requires
        module_wf(m),
    ensures
        seq_inv(fresh()),
        rows_left(fresh()) == MAX_VISITS * ORDER_LEN * ROWS,
        after(m, fresh(), (MAX_VISITS * ORDER_LEN * ROWS + 1) as nat).done,
{
    lemma_fresh_passes(ORDER_LEN as nat);
    lemma_every_song_ends(m, fresh());
}

/// No cell among the first `k` of the row stops the song.
proof fn lemma_no_stop(cells: Seq<Note>, base: int, k: nat, oi: nat, init: RowFx)
    requires
        !init.stop,
        forall|q: int| 0 <= q < k ==> !(#[trigger] cells[base + q].effect == 0x0F && cells[base + q].param
            == 0),
    ensures
        !row_fx(cells, base, k, oi, init).stop,
    decreases k,
{
    if k > 0 {
        lemma_no_stop(cells, base, (k - 1) as nat, oi, init);
        assert(cells[base + (k - 1)] == cells[base + k - 1]);
    }
}

/// Once cell `c` has set a jump, cells after it that neither jump nor
/// stop leave it in place.
proof fn lemma_jump_kept(cells: Seq<Note>, base: int, c: nat, k: nat, oi: nat, init: RowFx)
    requires
        c < k,
        !row_fx(cells, base, k, oi, init).stop,
        forall|q: int| c < q < k ==> (#[trigger] cells[base + q].effect) != 0x0B && cells[base
            + q].effect != 0x0D,
    ensures
        row_fx(cells, base, k, oi, init).jump == row_fx(cells, base, c + 1, oi, init).jump,
    decreases k,
{
    if k > c + 1 {
        let prev = row_fx(cells, base, (k - 1) as nat, oi, init);
        if prev.stop {
            assert(row_fx(cells, base, k, oi, init) == prev);
        }
        lemma_jump_kept(cells, base, c, (k - 1) as nat, oi, init);
        assert(cells[base + (k - 1)] == cells[base + k - 1]);
    }
}

/// `Dxy` ends the pattern at once: unless a later cell of the same row
/// jumps, and as long as no cell of the row stops the song, the row
/// plays and the song goes on at row `10x + y` — the last row at most —
/// of the next order entry.
pub proof fn lemma_pattern_break_goes_to_the_next_entry(m: ModuleView, s: SequencerView, c: nat)
    requires
        module_wf(m),
        seq_inv(s),
        !s.done,
        s.order_index < m.song_len,
        m.order[s.order_index as int] < m.patterns.len(),
        s.entered || s.visits[s.order_index as int] < MAX_VISITS,
        c < m.channels,
        ({
            let cells = m.patterns[m.order[s.order_index as int] as int];
            let base = s.row * m.channels;
            &&& cells[(base + c) as int].effect == 0x0D
            &&& forall|q: int|
                0 <= q < m.channels ==> !(#[trigger] cells[base + q].effect == 0x0F && cells[base
                    + q].param == 0)
            &&& forall|q: int|
                c < q < m.channels ==> (#[trigger] cells[base + q].effect) != 0x0B && cells[base
                    + q].effect != 0x0D
        }),
    ensures
        ({
            let cells = m.patterns[m.order[s.order_index as int] as int];
            let p = cells[(s.row * m.channels + c) as int].param;
            let r = 10 * (p / 16) + p % 16;
            let (next, plan) = step(m, s);
            &&& plan is Some
            &&& next.order_index == s.order_index + 1
            &&& next.row == if r < ROWS - 1 {
                r
            } else {
                ROWS - 1
            }
            &&& !next.entered
        }),
{
    let oi = s.order_index;
    let cells = m.patterns[m.order[oi as int] as int];
    let base = (s.row * m.channels) as int;
    let init = RowFx { jump: None, speed: s.speed, bpm: s.bpm, delay: 0, stop: false };
    let p = cells[base + c].param;
    assert((p >> 4u8) == p / 16 && (p & 0x0Fu8) == p % 16) by (bit_vector);
    lemma_no_stop(cells, base, m.channels, oi, init);
    lemma_no_stop(cells, base, c, oi, init);
    assert(cells[base + c] == cells[base + (c + 1) - 1]);
    lemma_jump_kept(cells, base, c, m.channels, oi, init);
}

/// A cell that says nothing of the song's structure: no jump, break,
/// speed, tempo or pattern delay.
pub open spec fn plain_cell(n: Note) -> bool {
    &&& n.effect != 0x0B
    &&& n.effect != 0x0D
    &&& n.effect != 0x0F
    &&& !(n.effect == 0x0E && n.param / 16 == 0x0E)
}

/// A row whose cells, but for cell `c`, are all plain amounts to what
/// cell `c` alone does to the row.
proof fn lemma_one_cell_counts(cells: Seq<Note>, base: int, k: nat, oi: nat, init: RowFx, c: nat)
    requires
        !init.stop,
        forall|q: int| 0 <= q < k && q != c ==> plain_cell(#[trigger] cells[base + q]),
    ensures
        row_fx(cells, base, k, oi, init) == if c < k {
            apply_effect(init, cells[base + c], oi)
        } else {
            init
        },
    decreases k,
{
    if k > 0 {
        lemma_one_cell_counts(cells, base, (k - 1) as nat, oi, init, c);
        let q = k - 1;
        assert(cells[base + q] == cells[base + k - 1]);
        if q != c {
            let n = cells[base + q];
            assert(plain_cell(n));
            let pr = n.param;
            assert((pr >> 4u8) == pr / 16) by (bit_vector);
        }
    }
}

/// A row the song reaches and whose cells are all plain plays for the
/// current speed at the current tempo, and the song moves on to the
/// next row, or past the last row to the start of the next order entry.
pub proof fn lemma_plain_rows_play_in_order(m: ModuleView, s: SequencerView)
    requires
        module_wf(m),
        seq_inv(s),
        !s.done,
        s.order_index < m.song_len,
        m.order[s.order_index as int] < m.patterns.len(),
        s.entered || s.visits[s.order_index as int] < MAX_VISITS,
        forall|q: int|
            0 <= q < m.channels ==> plain_cell(
                #[trigger] m.patterns[m.order[s.order_index as int] as int][s.row * m.channels + q],
            ),
    ensures
        ({
            let (next, plan) = step(m, s);
            &&& plan == Some(
                RowPlan {
                    pattern: m.order[s.order_index as int] as usize,
                    row: s.row as usize,
                    ticks: s.speed,
                    bpm: s.bpm,
                },
            )
            &&& next.speed == s.speed && next.bpm == s.bpm
            &&& if s.row + 1 < ROWS {
                next.order_index == s.order_index && next.row == s.row + 1 && next.entered
            } else {
                next.order_index == s.order_index + 1 && next.row == 0 && !next.entered
            }
        }),
{
    let oi = s.order_index;
    let cells = m.patterns[m.order[oi as int] as int];
    let base = (s.row * m.channels) as int;
    let init = RowFx { jump: None, speed: s.speed, bpm: s.bpm, delay: 0, stop: false };
    lemma_one_cell_counts(cells, base, m.channels, oi, init, m.channels);
    let fx = row_fx(cells, base, m.channels, oi, init);
    assert(fx == init);
    assert(fx.speed * (fx.delay + 1) == s.speed) by (nonlinear_arith)
        requires
            fx.delay == 0,
            fx.speed == s.speed,
    ;
}

/// `Fxx` in an otherwise plain row: `F00` ends the song; `xx` below
/// `0x20` sets the ticks per row, from this row on; anything higher sets
/// the tempo and leaves the speed.
pub proof fn lemma_set_speed_or_tempo(m: ModuleView, s: SequencerView, c: nat)
    requires
        module_wf(m),
        seq_inv(s),
        !s.done,
        s.order_index < m.song_len,
        m.order[s.order_index as int] < m.patterns.len(),
        s.entered || s.visits[s.order_index as int] < MAX_VISITS,
        c < m.channels,
        m.patterns[m.order[s.order_index as int] as int][(s.row * m.channels + c) as int].effect == 0x0F,
        forall|q: int|
            0 <= q < m.channels && q != c ==> plain_cell(
                #[trigger] m.patterns[m.order[s.order_index as int] as int][s.row * m.channels + q],
            ),
    ensures
        ({
            let x = m.patterns[m.order[s.order_index as int] as int][(s.row * m.channels + c) as int].param;
            let (next, plan) = step(m, s);
            &&& x == 0 ==> plan is None && next.done
            &&& 0 < x < 0x20 ==> (plan matches Some(p) && p.ticks == x && p.bpm == s.bpm
                && next.speed == x && next.bpm == s.bpm)
            &&& x >= 0x20 ==> (plan matches Some(p) && p.ticks == s.speed && p.bpm == x
                && next.speed == s.speed && next.bpm == x)
        }),
{
    let oi = s.order_index;
    let cells = m.patterns[m.order[oi as int] as int];
    let base = (s.row * m.channels) as int;
    let init = RowFx { jump: None, speed: s.speed, bpm: s.bpm, delay: 0, stop: false };
    lemma_one_cell_counts(cells, base, m.channels, oi, init, c);
    let fx = row_fx(cells, base, m.channels, oi, init);
    assert(fx.delay == 0);
    assert(fx.speed * (fx.delay + 1) == fx.speed) by (nonlinear_arith)
        requires
            fx.delay == 0,
    ;
}

/// `Bxx` in an otherwise plain row: the row plays, then the song goes
/// on at the first row of order entry `xx`.
pub proof fn lemma_position_jump(m: ModuleView, s: SequencerView, c: nat)
    requires
        module_wf(m),
        seq_inv(s),
        !s.done,
        s.order_index < m.song_len,
        m.order[s.order_index as int] < m.patterns.len(),
        s.entered || s.visits[s.order_index as int] < MAX_VISITS,
        c < m.channels,
        m.patterns[m.order[s.order_index as int] as int][(s.row * m.channels + c) as int].effect == 0x0B,
        forall|q: int|
            0 <= q < m.channels && q != c ==> plain_cell(
                #[trigger] m.patterns[m.order[s.order_index as int] as int][s.row * m.channels + q],
            ),
    ensures
        ({
            let x = m.patterns[m.order[s.order_index as int] as int][(s.row * m.channels + c) as int].param;
            let (next, plan) = step(m, s);
            &&& plan is Some
            &&& next.order_index == x
            &&& next.row == 0
            &&& !next.entered
        }),
{
    let oi = s.order_index;
    let cells = m.patterns[m.order[oi as int] as int];
    let base = (s.row * m.channels) as int;
    let init = RowFx { jump: None, speed: s.speed, bpm: s.bpm, delay: 0, stop: false };
    lemma_one_cell_counts(cells, base, m.channels, oi, init, c);
}

/// `EEx` in an otherwise plain row: the row lasts `x + 1` times the
/// speed, and the song then moves on as after any plain row.
pub proof fn lemma_pattern_delay(m: ModuleView, s: SequencerView, c: nat)
    requires
        module_wf(m),
        seq_inv(s),
        !s.done,
        s.order_index < m.song_len,
        m.order[s.order_index as int] < m.patterns.len(),
        s.entered || s.visits[s.order_index as int] < MAX_VISITS,
        c < m.channels,
        m.patterns[m.order[s.order_index as int] as int][(s.row * m.channels + c) as int].effect == 0x0E,
        m.patterns[m.order[s.order_index as int] as int][(s.row * m.channels + c) as int].param / 16
            == 0x0E,
        forall|q: int|
            0 <= q < m.channels && q != c ==> plain_cell(
                #[trigger] m.patterns[m.order[s.order_index as int] as int][s.row * m.channels + q],
            ),
    ensures
        ({
            let x = m.patterns[m.order[s.order_index as int] as int][(s.row * m.channels + c) as int].param
                % 16;
            let (next, plan) = step(m, s);
            &&& plan matches Some(p) && p.ticks == s.speed * (x + 1) && p.bpm == s.bpm
            &&& s.row + 1 < ROWS ==> next.order_index == s.order_index && next.row == s.row + 1
        }),
{
    let oi = s.order_index;
    let cells = m.patterns[m.order[oi as int] as int];
    let base = (s.row * m.channels) as int;
    let init = RowFx { jump: None, speed: s.speed, bpm: s.bpm, delay: 0, stop: false };
    lemma_one_cell_counts(cells, base, m.channels, oi, init, c);
    let pr = cells[base + c].param;
    assert((pr >> 4u8) == pr / 16 && (pr & 0x0Fu8) == pr % 16) by (bit_vector);
    assert(s.speed * (pr % 16 + 1) <= 255 * 16) by (nonlinear_arith)
        requires
            s.speed <= 255,
            pr % 16 < 16,
    ;
}

impl Sequencer {
    /// The start of a song.
    pub fn new() -> (s: Self)
        ensures
            s@ == fresh(),
            seq_inv(s@),
    {
        let mut visits: Vec<u8> = Vec::new();
        let mut i: usize = 0;
        while i < ORDER_LEN
            invariant
                i <= ORDER_LEN,
                visits@ == Seq::new(i as nat, |k: int| 0u8),
            decreases ORDER_LEN - i,
        {
            visits.push(0);
            i = i + 1;
            assert(visits@ == Seq::new(i as nat, |k: int| 0u8));
        }
        Sequencer {
            order_index: 0,
            row: 0,
            speed: START_SPEED,
            bpm: START_BPM,
            visits,
            entered: false,
            done: false,
        }
    }

    /// The next row to play, or `None` once the song is over.
    pub fn next_row(&mut self, m: &Module) -> (r: Option<RowPlan>)
        requires
            module_wf(m@),
            seq_inv(old(self)@),
        ensures
            (final(self)@, r) == step(m@, old(self)@),
            seq_inv(final(self)@),
    {
        let ghost s0 = self@;
        proof {
            lemma_each_row_is_paid_for(m@, s0);
        }
        if self.done {
            return None;
        }
        let oi = self.order_index;
        if oi >= m.song_len || m.order[oi] as usize >= m.patterns.len() {
            self.done = true;
            return None;
        }
        if !self.entered {
            if self.visits[oi] >= MAX_VISITS {
                self.done = true;
                return None;
            }
            let v = self.visits[oi] + 1;
            self.visits.set(oi, v);
            self.entered = true;
        }
        let ghost s1 = self@;
        let p = m.order[oi] as usize;
        let cells = &m.patterns[p];
        let ch = m.channels;
        assert(cells@ == m@.patterns[p as int]);
        let ghost init = RowFx { jump: None, speed: s0.speed, bpm: s0.bpm, delay: 0, stop: false };
        let ghost base = (self.row * ch) as int;
        let mut jump: Option<(usize, usize)> = None;
        let mut speed = self.speed;
        let mut bpm = self.bpm;
        let mut delay: u32 = 0;
        let mut c: usize = 0;
        while c < ch
            invariant
                module_wf(m@),
                seq_inv(s0),
                s0 == old(self)@,
                !s0.done,
                oi == s0.order_index,
                oi < m@.song_len,
                p < m@.patterns.len(),
                p == m@.order[oi as int],
                s0.entered || s0.visits[oi as int] < MAX_VISITS,
                s1 == (SequencerView {
                    visits: if s0.entered {
                        s0.visits
                    } else {
                        s0.visits.update(oi as int, (s0.visits[oi as int] + 1) as u8)
                    },
                    entered: true,
                    ..s0
                }),
                self@ == s1,
                cells@ == m@.patterns[p as int],
                ch == m@.channels,
                base == s0.row * ch,
                c <= ch,
                init == (RowFx { jump: None, speed: s0.speed, bpm: s0.bpm, delay: 0, stop: false }),
                ({
                    let fx = row_fx(cells@, base, c as nat, oi as nat, init);
                    &&& !fx.stop
                    &&& fx.speed == speed
                    &&& fx.bpm == bpm
                    &&& fx.delay == delay
                    &&& match jump {
                        Some((o, r)) => fx.jump == Some((o as nat, r as nat)),
                        None => fx.jump is None,
                    }
                }),
            decreases ch - c,
        {
            proof {
                lemma_cell_in_range(m@, p as int, s0.row, c as nat);
            }
            let n = cells[self.row * ch + c];
            if n.effect == 0x0B {
                jump = Some((n.param as usize, 0));
            } else if n.effect == 0x0D {
                let r = ((n.param >> 4u8) as usize) * 10 + ((n.param & 0x0F) as usize);
                let r = if r < ROWS - 1 {
                    r
                } else {
                    ROWS - 1
                };
                jump = Some((oi + 1, r));
            } else if n.effect == 0x0F && n.param == 0 {
                proof {
                    lemma_stop_persists(cells@, base, (c + 1) as nat, ch as nat, oi as nat, init);
                }
                self.done = true;
                return None;
            } else if n.effect == 0x0F && n.param < 0x20 {
                speed = n.param as u32;
            } else if n.effect == 0x0F {
                bpm = n.param as u32;
            } else if n.effect == 0x0E && (n.param >> 4u8) == 0x0E {
                delay = (n.param & 0x0F) as u32;
            }
            c = c + 1;
        }
        proof {
            lemma_row_fx_bounds(cells@, base, ch as nat, oi as nat, init);
        }
        assert(speed * (delay + 1) <= 255 * 256) by (nonlinear_arith)
            requires
                speed <= 255,
                delay <= 255,
        ;
        let plan = RowPlan { pattern: p, row: self.row, ticks: speed * (delay + 1), bpm };
        match jump {
            Some((o, r)) => {
                self.order_index = o;
                self.row = r;
                self.entered = false;
            },
            None => {
                if self.row + 1 < ROWS {
                    self.row = self.row + 1;
                } else {
                    self.order_index = oi + 1;
                    self.row = 0;
                    self.entered = false;
                }
            },
        }
        self.speed = speed;
        self.bpm = bpm;
        Some(plan)
    }
}

} // verus!
