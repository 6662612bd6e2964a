//! Units of time and tempo, and the length of one step.

use vstd::prelude::*;

verus! {

/// Ticks of the engine clock in one second.
pub const TICKS_PER_SECOND: u64 = 1_000_000_000;

/// Tempo units in one beat per minute.
pub const TEMPO_UNITS_PER_BPM: u32 = 1000;

/// Ticks in a bar of four beats at a tempo of one unit:
/// `4 * 60 * TICKS_PER_SECOND * TEMPO_UNITS_PER_BPM`.
pub const BAR_TICKS: u64 = 240_000_000_000_000;

/// Slots in a pattern.
pub const PATTERN_SLOTS: usize = 16;

/// Ticks that a voice starts after its scheduled time, whatever its offset.
pub const LEAD_IN: u64 = 50_000_000;

/// The latest horizon a track can be scheduled up to: one longest step short
/// of the end of the clock.
pub const MAX_HORIZON: u64 = 0xffff_ffff_ffff_ffff - BAR_TICKS;

/// Ticks per step of a bar of `steps` steps at `tempo`, rounded down to a
/// whole tick. Dividing in two stages loses nothing: see
/// [`lemma_step_span_exact`].
pub open spec fn step_span(tempo: int, steps: int) -> int {
    BAR_TICKS as int / tempo / steps
}

/// Whether a track can run at `tempo`.
pub open spec fn valid_tempo(tempo: int) -> bool {
    1 <= tempo <= u32::MAX
}

/// Whether a pattern can be `steps` steps long.
pub open spec fn valid_steps(steps: int) -> bool {
    1 <= steps <= PATTERN_SLOTS
}

/// The step span is the one whole number of ticks `d` with
/// `d <= BAR_TICKS / (tempo * steps) < d + 1`, and it is the exact quotient
/// wherever `tempo * steps` divides the bar. It is at least one tick and at
/// most a bar.
pub proof fn lemma_step_span_exact(tempo: int, steps: int)
    requires
        valid_tempo(tempo),
        valid_steps(steps),
    ensures
        step_span(tempo, steps) * (tempo * steps) <= BAR_TICKS,
        BAR_TICKS < (step_span(tempo, steps) + 1) * (tempo * steps),
        BAR_TICKS as int % (tempo * steps) == 0 ==> step_span(tempo, steps) * (tempo * steps)
            == BAR_TICKS,
        1 <= step_span(tempo, steps) <= BAR_TICKS,
{
    let den: int = tempo * steps;
    assert(1 <= den <= 0xffff_ffff * 16) by (nonlinear_arith)
        requires
            1 <= tempo <= 0xffff_ffff,
            1 <= steps <= 16,
            den == tempo * steps,
    ;
    let bar: int = BAR_TICKS as int;
    vstd::arithmetic::div_mod::lemma_div_denominator(bar, tempo, steps);
    vstd::arithmetic::div_mod::lemma_fundamental_div_mod(bar, den);
    vstd::arithmetic::div_mod::lemma_mod_bound(bar, den);
    let q: int = bar / den;
    assert(den * q + bar % den == bar);
    assert(q * den == den * q) by (nonlinear_arith);
    assert((q + 1) * den == den * q + den) by (nonlinear_arith);
    assert(q >= 1) by (nonlinear_arith)
        requires
            den * q + bar % den == bar,
            0 <= bar % den < den,
            1 <= den <= 0xffff_ffff * 16,
            bar == 240_000_000_000_000,
    ;
    assert(q <= bar) by (nonlinear_arith)
        requires
            den * q + bar % den == bar,
            0 <= bar % den < den,
            1 <= den,
            q >= 1,
    ;
}

/// Computes the step span.
pub fn step_delta(tempo: u32, steps: usize) -> (delta: u64)
    requires
        valid_tempo(tempo as int),
        valid_steps(steps as int),
    ensures
        delta == step_span(tempo as int, steps as int),
        1 <= delta <= BAR_TICKS,
{
    proof {
        lemma_step_span_exact(tempo as int, steps as int);
    }
    BAR_TICKS / (tempo as u64) / (steps as u64)
}

} // verus!
