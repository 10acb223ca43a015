//! The idle-behaviour schedule of the character: where the eyes take their
//! cue from, and the random draws behind blinks and eye saccades.
//!
//! Every draw is the top 24 bits `k` of one generator output; the unit value
//! it stands for is `k / 2^24`, uniform in `[0, 1)`. The arithmetic that
//! turns a unit value into seconds and metres is done in floating point by
//! the caller; here the draws, their order, and the saccade table are exact.

use vstd::prelude::*;

verus! {

use crate::pcg::{
    Pcg32, pcg_step, pcg_output, unit_bits, pcg_advance, pcg_nth_output, lemma_advance_one,
    lemma_advance_split,
};

/// Where the character's eyes take their cue from.
#[derive(Clone, Copy, Debug, PartialEq, Eq, Structural)]
pub enum TrackingMode {
    /// Idle saccades around the base look target.
    Idle,
    /// Follow an externally supplied target (cursor tracking).
    Mouse,
}

/// The name of a tracking mode, as the guest sees it.
pub open spec fn tracking_name_spec(m: TrackingMode) -> Seq<char> {
    match m {
        TrackingMode::Idle => "none"@,
        TrackingMode::Mouse => "mouse"@,
    }
}

/// The tracking mode a guest's name selects: `"mouse"` selects cursor
/// tracking, every other name selects idle saccades.
pub open spec fn tracking_from_name_spec(name: Seq<char>) -> TrackingMode {
    if name == "mouse"@ {
        TrackingMode::Mouse
    } else {
        TrackingMode::Idle
    }
}

/// Whether two strings hold the same characters.
pub fn str_eq(a: &str, b: &str) -> (r: bool)
    ensures
        r == (a@ == b@),
{
    let n = a.unicode_len();
    let m = b.unicode_len();
    if n != m {
        return false;
    }
    let mut i: usize = 0;
    while i < n
        invariant
            n == a@.len(),
            m == b@.len(),
            n == m,
            i <= n,
            forall|j: int| 0 <= j < i ==> a@[j] == b@[j],
        decreases n - i,
    {
        if a.get_char(i) != b.get_char(i) {
            return false;
        }
        i = i + 1;
    }
    assert(a@ =~= b@);
    true
}

impl TrackingMode {
    /// The mode's name: `"none"` or `"mouse"`.
    pub fn name(self) -> (s: &'static str)
        ensures
            s@ == tracking_name_spec(self),
            self == TrackingMode::Idle ==> s@ == "none"@,
            self == TrackingMode::Mouse ==> s@ == "mouse"@,
    {
        match self {
            TrackingMode::Idle => "none",
            TrackingMode::Mouse => "mouse",
        }
    }

    /// The mode a name selects: `"mouse"` is cursor tracking, anything else
    /// idle saccades.
    pub fn from_name(name: &str) -> (m: TrackingMode)
        ensures
            m == tracking_from_name_spec(name@),
            name@ == "mouse"@ ==> m == TrackingMode::Mouse,
            name@ != "mouse"@ ==> m == TrackingMode::Idle,
    {
        if str_eq(name, "mouse") {
            TrackingMode::Mouse
        } else {
            TrackingMode::Idle
        }
    }
}

/// Naming a mode and reading the name back gives the same mode.
pub proof fn lemma_tracking_name_round_trip(m: TrackingMode)
    ensures
        tracking_from_name_spec(tracking_name_spec(m)) == m,
{
    reveal_strlit("none");
    reveal_strlit("mouse");
    if m == TrackingMode::Idle {
        assert("none"@[0] != "mouse"@[0]);
    }
}

/// Base of the saccade interval table, in milliseconds.
pub const SACCADE_BASE_MS: u32 = 800;

/// Width of one row of the saccade interval table, in milliseconds.
pub const SACCADE_STEP_MS: u32 = 400;

/// Number of rows of the saccade interval table.
pub const SACCADE_ROWS: u32 = 10;

/// 2^24, the denominator of a unit draw.
pub const UNIT_DENOMINATOR: u32 = 0x100_0000;

/// The cumulative probability of saccade row `i`, scaled to unit draws: a
/// draw `k` (standing for `k / 2^24`) falls at or below row `i`'s
/// cumulative probability exactly when `k` is at most this threshold.
/// The rows' probabilities are the single-precision values of 0.075,
/// 0.185, 0.310, 0.450, 0.575, 0.625, 0.665, 0.695, 0.715 and 1.0; each
/// threshold is the floor of that value times 2^24.
pub open spec fn saccade_threshold(i: int) -> int {
    if i == 0 {
        1258291
    } else if i == 1 {
        3103785
    } else if i == 2 {
        5200937
    } else if i == 3 {
        7549747
    } else if i == 4 {
        9646899
    } else if i == 5 {
        10485760
    } else if i == 6 {
        11156849
    } else if i == 7 {
        11660165
    } else if i == 8 {
        11995709
    } else {
        16777216
    }
}

/// The first row at or after `i` whose threshold `k` does not exceed; the
/// last row when there is none.
pub open spec fn saccade_row_from(k: int, i: int) -> int
    decreases 10 - i,
{
    if i >= 9 {
        9
    } else if k <= saccade_threshold(i) {
        i
    } else {
        saccade_row_from(k, i + 1)
    }
}

/// The row of the saccade table that a unit draw `k` selects.
pub open spec fn saccade_row_spec(k: int) -> int {
    saccade_row_from(k, 0)
}

/// The base interval of saccade row `row`: `800 + 400 * row` milliseconds.
pub open spec fn saccade_base_ms_spec(row: int) -> int {
    SACCADE_BASE_MS + SACCADE_STEP_MS * row
}

/// The threshold of row `i` of the saccade table.
pub fn saccade_threshold_at(i: u32) -> (t: u32)
    requires
        i < SACCADE_ROWS,
    ensures
        t == saccade_threshold(i as int),
{
    if i == 0 {
        1258291
    } else if i == 1 {
        3103785
    } else if i == 2 {
        5200937
    } else if i == 3 {
        7549747
    } else if i == 4 {
        9646899
    } else if i == 5 {
        10485760
    } else if i == 6 {
        11156849
    } else if i == 7 {
        11660165
    } else if i == 8 {
        11995709
    } else {
        16777216
    }
}

proof fn lemma_row_from_bounds(k: int, i: int)
    requires
        0 <= i <= 9,
    ensures
        i <= saccade_row_from(k, i) <= 9,
        forall|j: int| i <= j < saccade_row_from(k, i) ==> k > #[trigger] saccade_threshold(j),
        saccade_row_from(k, i) < 9 ==> k <= saccade_threshold(saccade_row_from(k, i)),
    decreases 10 - i,
{
    if i < 9 && k > saccade_threshold(i) {
        lemma_row_from_bounds(k, i + 1);
    }
}

/// The row of the saccade table that a unit draw `k` selects: the first row
/// whose cumulative probability is at least `k / 2^24` (the last row
/// catches every draw, as its probability is 1).
pub fn saccade_row(k: u32) -> (row: u32)
    requires
        k < UNIT_DENOMINATOR,
    ensures
        row == saccade_row_spec(k as int),
        row < SACCADE_ROWS,
        k <= saccade_threshold(row as int),
        forall|j: int| 0 <= j < row ==> k > #[trigger] saccade_threshold(j),
{
    proof {
        lemma_row_from_bounds(k as int, 0);
    }
    let mut i: u32 = 0;
    while i < 9
        invariant
            i <= 9,
            saccade_row_from(k as int, i as int) == saccade_row_spec(k as int),
        decreases 9 - i,
    {
        if k <= saccade_threshold_at(i) {
            proof {
                lemma_row_from_bounds(k as int, 0);
            }
            assert(saccade_row_spec(k as int) == i as int);
            return i;
        }
        i = i + 1;
    }
    9
}

/// The base interval of a saccade table row, in milliseconds.
pub fn saccade_base_ms(row: u32) -> (ms: u32)
    requires
        row < SACCADE_ROWS,
    ensures
        ms == saccade_base_ms_spec(row as int),
        ms == 800 + 400 * row,
        SACCADE_BASE_MS <= ms <= SACCADE_BASE_MS + SACCADE_STEP_MS * (SACCADE_ROWS - 1),
{
    SACCADE_BASE_MS + SACCADE_STEP_MS * row
}

/// One drawn saccade interval: a table row and a unit draw `frac` within the
/// row. It stands for `(800 + 400 * row + 400 * frac / 2^24) / 1000`
/// seconds.
#[derive(Clone, Copy, Debug, PartialEq, Eq, Structural)]
pub struct SaccadeInterval {
    pub row: u32,
    pub frac: u32,
}

/// The interval in milliseconds, scaled by 2^24 to stay exact:
/// `(800 + 400 * row) * 2^24 + 400 * frac`.
pub open spec fn saccade_interval_scaled(s: SaccadeInterval) -> int {
    saccade_base_ms_spec(s.row as int) * UNIT_DENOMINATOR + SACCADE_STEP_MS * s.frac
}

/// Draws a saccade interval: a row from the table with the first unit draw,
/// then a position within the row with the second.
pub fn draw_saccade_interval(rng: &mut Pcg32) -> (s: SaccadeInterval)
    ensures
        s.row == saccade_row_spec(unit_bits(pcg_nth_output(old(rng)@, 0)) as int),
        s.frac == unit_bits(pcg_nth_output(old(rng)@, 1)),
        final(rng)@ == pcg_advance(old(rng)@, 2),
        s.row < SACCADE_ROWS,
        s.frac < UNIT_DENOMINATOR,
{
    let ghost s0 = rng@;
    let r = rng.next_u24();
    let row = saccade_row(r);
    let frac = rng.next_u24();
    proof {
        assert(pcg_advance(s0, 1) == pcg_step(s0)) by {
            assert(pcg_advance(pcg_step(s0), 0) == pcg_step(s0));
        }
        assert(pcg_advance(s0, 2) == pcg_advance(pcg_step(s0), 1));
        assert(pcg_advance(pcg_step(s0), 1) == pcg_advance(pcg_step(pcg_step(s0)), 0));
    }
    SaccadeInterval { row, frac }
}

/// Every drawn saccade interval lies within the table's bounds:
/// from 0.8 s up to, and excluding, 4.8 s.
pub proof fn lemma_saccade_interval_bounds(s: SaccadeInterval)
    requires
        s.row < SACCADE_ROWS,
        s.frac < UNIT_DENOMINATOR,
    ensures
        800 * UNIT_DENOMINATOR <= saccade_interval_scaled(s) < 4800 * UNIT_DENOMINATOR,
{
}

/// The draws of one saccade: the jitter of the new fixation on both axes
/// (unit draws standing for `-0.25 + 0.5 * k / 2^24` metres), then the
/// interval until the next saccade.
#[derive(Clone, Copy, Debug, PartialEq, Eq, Structural)]
pub struct SaccadeDraw {
    pub jitter_x: u32,
    pub jitter_y: u32,
    pub interval: SaccadeInterval,
}

/// Draws one saccade: horizontal jitter, vertical jitter, then the interval,
/// four outputs of the generator in that order.
pub fn draw_saccade(rng: &mut Pcg32) -> (d: SaccadeDraw)
    ensures
        d.jitter_x == unit_bits(pcg_nth_output(old(rng)@, 0)),
        d.jitter_y == unit_bits(pcg_nth_output(old(rng)@, 1)),
        d.interval.row == saccade_row_spec(unit_bits(pcg_nth_output(old(rng)@, 2)) as int),
        d.interval.frac == unit_bits(pcg_nth_output(old(rng)@, 3)),
        final(rng)@ == pcg_advance(old(rng)@, 4),
        d == saccade_draw_spec(old(rng)@),
        d.jitter_x < UNIT_DENOMINATOR,
        d.jitter_y < UNIT_DENOMINATOR,
        d.interval.row < SACCADE_ROWS,
        d.interval.frac < UNIT_DENOMINATOR,
{
    let ghost s0 = rng@;
    let jitter_x = rng.next_u24();
    let jitter_y = rng.next_u24();
    let ghost s2 = rng@;
    let interval = draw_saccade_interval(rng);
    proof {
        lemma_advance_split(s0, 2, 2);
        lemma_advance_split(s0, 1, 1);
        lemma_advance_split(s0, 2, 1);
        lemma_advance_split(s0, 3, 0);
        lemma_advance_one(s0);
        lemma_advance_one(pcg_step(s0));
        assert(s2 == pcg_advance(s0, 2));
        lemma_advance_split(s0, 0, 2);
    }
    SaccadeDraw { jitter_x, jitter_y, interval }
}

/// The saccade drawn from a generator in state `s`.
pub open spec fn saccade_draw_spec(s: u64) -> SaccadeDraw {
    SaccadeDraw {
        jitter_x: unit_bits(pcg_nth_output(s, 0)),
        jitter_y: unit_bits(pcg_nth_output(s, 1)),
        interval: SaccadeInterval {
            row: saccade_row_spec(unit_bits(pcg_nth_output(s, 2)) as int) as u32,
            frac: unit_bits(pcg_nth_output(s, 3)),
        },
    }
}

/// The draws of one simulation tick.
#[derive(Clone, Copy, Debug, PartialEq, Eq, Structural)]
pub struct TickDraws {
    /// The next blink interval, drawn when a blink has just ended.
    pub blink_interval: Option<u32>,
    /// The next saccade, drawn when one is due.
    pub saccade: Option<SaccadeDraw>,
}

/// Whether a saccade happens this tick: only while the eyes idle (a mouse
/// target replaces saccades), once the fixation has been held for its
/// interval.
pub open spec fn saccade_happens(tracking: TrackingMode, interval_elapsed: bool) -> bool {
    tracking == TrackingMode::Idle && interval_elapsed
}

/// The random draws of one tick, in the order the tick makes them: first
/// the next blink interval when a blink has just ended, then, while the
/// eyes idle and the fixation's interval has elapsed, the next saccade.
/// Nothing else consumes the generator, so a seed fixes every tick.
pub fn draw_for_tick(
    rng: &mut Pcg32,
    blink_ended: bool,
    tracking: TrackingMode,
    saccade_interval_elapsed: bool,
) -> (d: TickDraws)
    ensures
        ({
            let s0 = old(rng)@;
            let s1 = if blink_ended { pcg_step(s0) } else { s0 };
            &&& d.blink_interval == (if blink_ended {
                Some(unit_bits(pcg_output(s0)))
            } else {
                None::<u32>
            })
            &&& d.saccade == (if saccade_happens(tracking, saccade_interval_elapsed) {
                Some(saccade_draw_spec(s1))
            } else {
                None::<SaccadeDraw>
            })
            &&& final(rng)@ == (if saccade_happens(tracking, saccade_interval_elapsed) {
                pcg_advance(s1, 4)
            } else {
                s1
            })
        }),
        tracking == TrackingMode::Mouse ==> d.saccade is None,
        tracking == TrackingMode::Mouse ==> final(rng)@ == (if blink_ended {
            pcg_step(old(rng)@)
        } else {
            old(rng)@
        }),
        !saccade_interval_elapsed ==> d.saccade is None,
        tracking == TrackingMode::Idle && saccade_interval_elapsed ==> d.saccade == Some(
            saccade_draw_spec(if blink_ended { pcg_step(old(rng)@) } else { old(rng)@ }),
        ),
{
    let blink_interval = if blink_ended {
        Some(draw_blink_interval(rng))
    } else {
        None
    };
    let saccade = if tracking == TrackingMode::Idle && saccade_interval_elapsed {
        Some(draw_saccade(rng))
    } else {
        None
    };
    TickDraws { blink_interval, saccade }
}

/// A saccade happens exactly while the eyes idle and the fixation's interval
/// has elapsed: never while following the cursor, never before the interval
/// is over.
pub proof fn lemma_saccade_only_when_idle(tracking: TrackingMode, interval_elapsed: bool)
    ensures
        tracking == TrackingMode::Mouse ==> !saccade_happens(tracking, interval_elapsed),
        !interval_elapsed ==> !saccade_happens(tracking, interval_elapsed),
        tracking == TrackingMode::Idle && interval_elapsed ==> saccade_happens(
            tracking,
            interval_elapsed,
        ),
{
}

/// Row `row` of the saccade table waits 800 ms plus 400 ms per row: each
/// row waits 400 ms longer than the one before it.
pub proof fn lemma_saccade_base_rows(row: int)
    requires
        0 <= row < SACCADE_ROWS,
    ensures
        saccade_base_ms_spec(row) == 800 + 400 * row,
        row + 1 < SACCADE_ROWS ==> saccade_base_ms_spec(row + 1) == saccade_base_ms_spec(row)
            + 400,
        saccade_base_ms_spec(0) == 800,
{
}

/// Draws the unit value behind the time until the next blink (which stands
/// for `1 + 5 * k / 2^24` seconds): one output of the generator.
pub fn draw_blink_interval(rng: &mut Pcg32) -> (k: u32)
    ensures
        k == unit_bits(pcg_output(old(rng)@)),
        k < UNIT_DENOMINATOR,
        final(rng)@ == pcg_step(old(rng)@),
{
    rng.next_u24()
}

} // verus!
