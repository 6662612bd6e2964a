//! Laws of the track model: what holds across several operations.

use crate::sequencer::Trigger;
use crate::sounds::SoundParams;
use crate::timing::{lemma_step_span_exact, step_span, valid_steps, valid_tempo};
use crate::track::{
    lemma_advance_add, lemma_advance_one, lemma_due_least, lemma_due_unique, Firing, TrackState,
};
use vstd::math::max;
use vstd::prelude::*;

verus! {

/// Resolutions come in step order and evenly spaced. The first lands on
/// the cursor at the time of the next step. From one resolution to the next
/// the slot moves on by one, wrapping after the last active slot, and the time
/// by one step span, so that times strictly increase.
pub proof fn lemma_firings_cycle(s: TrackState, k: int)
    requires
        s.wf(),
        0 <= k,
    ensures
        s.firing(0).step == s.cursor,
        s.firing(0).time == s.next_time,
        0 <= s.firing(k).step < s.steps,
        s.firing(k + 1).step == (if s.firing(k).step + 1 < s.steps {
            s.firing(k).step + 1
        } else {
            0
        }),
        s.firing(k + 1).time == s.firing(k).time + s.step_delta(),
        s.firing(k).time < s.firing(k + 1).time,
{
    lemma_advance_add(s, k, 1);
    lemma_advance_add(s, k, 0);
    lemma_advance_add(s, 0, 0);
    lemma_advance_one(s.advance(k));
    lemma_advance_one(s);
    lemma_step_span_exact(s.tempo, s.steps);
    assert(s.advance(k).firing(0) == s.firing(k + 0));
    assert(s.advance(k).firing(1) == s.firing(k + 1));
    assert(s.advance(k).advance(1).cursor == s.advance(k + 1).cursor);
    assert(0 * s.step_delta() == 0) by (nonlinear_arith);
    assert(1 * s.step_delta() == s.step_delta()) by (nonlinear_arith);
}

/// Two ticks in a row do what one tick with the later horizon does: the
/// same steps are resolved, once each and in the same order, and the track
/// ends in the same state. How the calls fall has no effect on what is
/// resolved or for which time.
pub proof fn lemma_schedule_twice(s: TrackState, first: int, second: int)
    requires
        s.wf(),
    ensures
        s.scheduled(first).wf(),
        s.scheduled(first).scheduled(second) == s.scheduled(max(first, second)),
        s.firings(first) + s.scheduled(first).firings(second) == s.firings(max(first, second)),
{
    let d: int = s.step_delta();
    let n1: int = s.due(first);
    lemma_due_least(s, first);
    let mid: TrackState = s.advance(n1);
    lemma_advance_add(s, n1, 0);
    let n2: int = mid.due(second);
    lemma_due_least(mid, second);
    lemma_advance_add(s, n1, n2);
    lemma_step_span_exact(s.tempo, s.steps);
    assert(mid.step_delta() == d);
    assert(0 * d == 0) by (nonlinear_arith);
    assert(n1 * d + n2 * d == (n1 + n2) * d) by (nonlinear_arith);
    assert(n1 * d + (n2 - 1) * d == (n1 + n2 - 1) * d) by (nonlinear_arith);
    assert(n2 * d >= 0) by (nonlinear_arith)
        requires
            n2 >= 0,
            d >= 1,
    ;
    assert(mid.time_at(n2) == s.time_at(n1 + n2));
    assert(mid.time_at(n2 - 1) == s.time_at(n1 + n2 - 1));
    lemma_due_unique(s, max(first, second), n1 + n2);
    let joined: Seq<Firing> = s.firings(first) + mid.firings(second);
    let whole: Seq<Firing> = s.firings(max(first, second));
    assert(joined.len() == whole.len());
    assert forall|k: int| 0 <= k < joined.len() implies joined[k] == whole[k] by {
        if k >= n1 {
            assert(mid.firing(k - n1) == s.firing(n1 + (k - n1)));
        }
    }
    assert(joined =~= whole);
}

/// Any run of ticks does what a single tick with the latest of their
/// horizons does. Over the span from the time of the next step to that
/// horizon, the number of steps resolved is the span divided by the step
/// span, rounded down, or one more; the resolved slots follow the cycle from
/// the cursor on, one step span apart.
pub proof fn lemma_schedule_run(s: TrackState, horizons: Seq<int>)
    requires
        s.wf(),
    ensures
        s.after_ticks(horizons).wf(),
        TrackState::reach(s.next_time, horizons) >= s.next_time,
        s.after_ticks(horizons) == s.scheduled(TrackState::reach(s.next_time, horizons)),
        s.firings_over(horizons) == s.firings(TrackState::reach(s.next_time, horizons)),
        (TrackState::reach(s.next_time, horizons) - s.next_time) / s.step_delta()
            <= s.firings_over(horizons).len() <= (TrackState::reach(s.next_time, horizons)
            - s.next_time) / s.step_delta() + 1,
        forall|k: int|
            0 <= k < s.firings_over(horizons).len() ==> (#[trigger] s.firings_over(
                horizons,
            )[k]).step == (s.cursor + k) % s.steps && s.firings_over(horizons)[k].time
                == s.next_time + k * s.step_delta(),
    decreases horizons.len(),
{
    let far: int = TrackState::reach(s.next_time, horizons);
    if horizons.len() == 0 {
        lemma_due_least(s, s.next_time);
        lemma_advance_one(s);
        assert(s.firings(s.next_time) =~= Seq::<Firing>::empty());
    } else {
        let earlier: Seq<int> = horizons.drop_last();
        let near: int = TrackState::reach(s.next_time, earlier);
        lemma_schedule_run(s, earlier);
        lemma_schedule_twice(s, near, horizons.last());
    }
    lemma_due_least(s, far);
}

/// A change of tempo or of length is not retroactive: the step that is due
/// next keeps the time it was given, and the history keeps what was recorded.
/// The new step span separates the later steps.
pub proof fn lemma_changes_hold_from_the_next_step(s: TrackState, tempo: int, steps: int, k: int)
    requires
        s.wf(),
        valid_tempo(tempo),
        valid_steps(steps),
    ensures
        s.with_tempo(tempo).wf(),
        s.with_length(steps).wf(),
        s.with_tempo(tempo).firing(0) == s.firing(0),
        s.with_tempo(tempo).history == s.history,
        s.with_tempo(tempo).firing(k).time == s.next_time + k * step_span(tempo, s.steps),
        s.with_length(steps).firing(0).time == s.next_time,
        s.with_length(steps).history == s.history,
        s.with_length(steps).firing(k).time == s.next_time + k * step_span(s.tempo, steps),
        s.cursor < steps ==> s.with_length(steps).firing(0) == s.firing(0),
{
    crate::arith::lemma_mod_near(s.cursor, s.steps);
    if s.cursor < steps {
        crate::arith::lemma_mod_near(s.cursor, steps);
    } else {
        crate::arith::lemma_mod_near(0, steps);
    }
    assert(0 * step_span(tempo, s.steps) == 0) by (nonlinear_arith);
    assert(0 * step_span(s.tempo, steps) == 0) by (nonlinear_arith);
    assert(0 * s.step_delta() == 0) by (nonlinear_arith);
}

/// A locked step is deaf to the default: whatever becomes the default
/// sound, the step resolves to the sound it was locked to, and the pattern is
/// untouched.
pub proof fn lemma_locked_step_keeps_its_sound(
    s: TrackState,
    step: int,
    locked: SoundParams,
    params: SoundParams,
)
    requires
        s.pattern[step] == Trigger::Locked(locked),
    ensures
        s.with_default(params).pattern == s.pattern,
        s.resolve(step) == Some(locked),
        s.with_default(params).resolve(step) == Some(locked),
        forall|k: int|
            s.step_at(k) == step ==> (#[trigger] s.with_default(params).firing(k)).params == Some(
                locked,
            ),
{
}

/// A normal step follows the default: it resolves to whatever the default
/// sound is when it is resolved, not to what it was when the pattern was
/// written.
pub proof fn lemma_normal_step_follows_default(s: TrackState, step: int, params: SoundParams)
    requires
        s.pattern[step] == Trigger::Normal,
    ensures
        s.resolve(step) == Some(s.default_params),
        s.with_default(params).resolve(step) == Some(params),
        forall|k: int|
            s.step_at(k) == step ==> (#[trigger] s.with_default(params).firing(k)).params == Some(
                params,
            ),
{
}

/// Stop and play start a track over: wherever two tracks of the same setup
/// were, after a stop and a play at `now` they are in one and the same state,
/// with the cursor on the first slot and the next step due at `now`. From
/// there the `k`-th resolution lands on slot `k`, counted round the active
/// slots, at `k` step spans after `now`.
pub proof fn lemma_stop_then_play(a: TrackState, b: TrackState, now: int)
    requires
        a.wf(),
        b.wf(),
        a.same_setup(b),
    ensures
        a.stopped().played(now) == b.stopped().played(now),
        a.stopped().played(now).wf(),
        a.stopped().played(now).same_setup(a),
        a.stopped().played(now).cursor == 0,
        a.stopped().played(now).next_time == now,
        forall|k: int|
            (#[trigger] a.stopped().played(now).firing(k)).step == k % a.steps
                && a.stopped().played(now).firing(k).time == now + k * a.step_delta(),
{
    assert(a.stopped().history =~= b.stopped().history);
}

/// What a walk answers that has made `k` probes in vain: the slot of the
/// first later probe that finds a resolution already heard, or the last
/// answer where no later probe finds one.
proof fn lemma_look_back(s: TrackState, now: int, k: int)
    requires
        s.wf(),
        0 <= k <= s.steps,
    ensures
        0 <= s.look_back(now, k) < s.steps,
        (exists|j: int|
            k <= j < s.steps && s.heard(#[trigger] s.probe(j), now) && s.look_back(now, k)
                == s.probe(j) && forall|i: int| k <= i < j ==> !s.heard(#[trigger] s.probe(i), now))
            || (s.look_back(now, k) == s.playing && forall|i: int|
            k <= i < s.steps ==> !s.heard(#[trigger] s.probe(i), now)),
    decreases s.steps - k,
{
    if k < s.steps {
        vstd::arithmetic::div_mod::lemma_mod_bound(s.cursor - 1 - k, s.steps);
        if s.heard(s.probe(k), now) {
            assert(s.look_back(now, k) == s.probe(k));
        } else {
            lemma_look_back(s, now, k + 1);
            if s.look_back(now, k + 1) == s.playing && forall|i: int|
                k + 1 <= i < s.steps ==> !s.heard(#[trigger] s.probe(i), now) {
            } else {
                let j: int = choose|j: int|
                    k + 1 <= j < s.steps && s.heard(#[trigger] s.probe(j), now) && s.look_back(
                        now,
                        k + 1,
                    ) == s.probe(j) && forall|i: int|
                        k + 1 <= i < j ==> !s.heard(#[trigger] s.probe(i), now);
                assert(k <= j < s.steps && s.heard(s.probe(j), now) && s.look_back(now, k)
                    == s.probe(j));
            }
        }
    }
}

/// The step query answers with an active slot: the first one, walking back
/// from just behind the cursor, whose latest resolution `now` has reached. It
/// never answers with a slot that is scheduled but not yet heard, unless one
/// round of the active slots finds nothing heard at all and it repeats its
/// last answer.
pub proof fn lemma_current_step(s: TrackState, now: int)
    requires
        s.wf(),
    ensures
        0 <= s.current_step(now) < s.steps,
        s.queried(now).wf(),
        (exists|j: int|
            0 <= j < s.steps && s.heard(#[trigger] s.probe(j), now) && s.current_step(now)
                == s.probe(j) && forall|i: int| 0 <= i < j ==> !s.heard(#[trigger] s.probe(i), now))
            || (s.current_step(now) == s.playing && forall|i: int|
            0 <= i < s.steps ==> !s.heard(#[trigger] s.probe(i), now)),
        s.heard(s.current_step(now), now) || s.current_step(now) == s.playing,
{
    lemma_look_back(s, now, 0);
}

/// While the clock has not reached the step that was scheduled last, the
/// query does not answer with it: where the slot before it has been heard,
/// that slot is the answer.
pub proof fn lemma_query_waits_for_the_clock(s: TrackState, now: int)
    requires
        s.wf(),
        !s.heard(s.probe(0), now),
        s.heard(s.probe(1), now),
    ensures
        s.probe(0) == (if s.cursor == 0 {
            s.steps - 1
        } else {
            s.cursor - 1
        }),
        s.probe(1) != s.probe(0),
        s.current_step(now) == s.probe(1),
{
    crate::arith::lemma_mod_near(s.cursor - 1, s.steps);
    if s.steps == 1 {
        crate::arith::lemma_mod_near(s.cursor - 2 + 1, s.steps);
        crate::arith::lemma_mod_add(s.cursor - 1, -1, s.steps);
    } else {
        crate::arith::lemma_mod_near(s.cursor - 2, s.steps);
    }
    assert(s.look_back(now, 1) == s.probe(1));
    assert(s.look_back(now, 0) == s.look_back(now, 1));
}

/// After a start from rest and `n` resolutions, the `j`-th probe of a step
/// query looks at the slot of the resolution `j` before the last, and finds
/// there the time of that resolution, or nothing where fewer than `j + 1`
/// steps were resolved.
proof fn lemma_probe_after_run(s: TrackState, start: int, n: int, j: int)
    requires
        s.wf(),
        0 <= n,
        0 <= j < s.steps,
    ensures
        ({
            let run = s.stopped().played(start).advance(n);
            &&& run.wf()
            &&& run.probe(j) == (n - 1 - j) % s.steps
            &&& 0 <= run.probe(j) < s.steps
            &&& run.history[run.probe(j)] == (if j <= n - 1 {
                Some(start + (n - 1 - j) * s.step_delta())
            } else {
                None
            })
        }),
{
    let rest: TrackState = s.stopped().played(start);
    let run: TrackState = rest.advance(n);
    let m: int = s.steps;
    lemma_advance_add(rest, n, 0);
    crate::arith::lemma_mod_add(n, -1 - j, m);
    assert(n + (-1 - j) == n - 1 - j);
    assert(run.cursor - 1 - j == (n % m) + (-1 - j));
    let slot: int = run.probe(j);
    vstd::arithmetic::div_mod::lemma_mod_bound(n - 1 - j, m);
    crate::arith::lemma_mod_back(n - 1, j, m);
    assert(rest.last_landing(n, slot) == n - 1 - j);
}

/// The time of the resolution `i` before the last of `n`, counted from a
/// start at `start`.
spec fn time_back(s: TrackState, start: int, n: int, i: int) -> int {
    start + (n - 1 - i) * s.step_delta()
}

/// The walk of a step query after a start from rest and `n` resolutions:
/// as long as the probes stand on steps that `now` has not reached, the answer
/// is that of the probe `j` which stands on the latest step reached.
proof fn lemma_walk_after_run(s: TrackState, start: int, n: int, now: int, j: int, k: int)
    requires
        s.wf(),
        1 <= n,
        0 <= k <= j < s.steps,
        j <= n - 1,
        time_back(s, start, n, j) <= now,
        forall|i: int| 0 <= i < j ==> #[trigger] time_back(s, start, n, i) > now,
    ensures
        s.stopped().played(start).advance(n).look_back(now, k) == (n - 1 - j) % s.steps,
    decreases j - k,
{
    let run: TrackState = s.stopped().played(start).advance(n);
    lemma_probe_after_run(s, start, n, k);
    if k < j {
        assert(time_back(s, start, n, k) > now);
        assert(!run.heard(run.probe(k), now));
        lemma_walk_after_run(s, start, n, now, j, k + 1);
    } else {
        assert(run.heard(run.probe(k), now));
    }
}

/// The step query follows the clock. After a start from rest at `start`
/// and `n` resolutions, the step that is audible at `now` is the latest
/// resolved step whose time `now` has reached: step number
/// `(now - start) / step_delta`, or the last one resolved where the clock has
/// run past all of them. The query answers with the slot of that step, as
/// long as the scheduler is less than one round of the active slots ahead of
/// it.
pub proof fn lemma_query_follows_clock(s: TrackState, start: int, n: int, now: int)
    requires
        s.wf(),
        1 <= n,
        start <= now,
    ensures
        ({
            let run = s.stopped().played(start).advance(n);
            let latest = vstd::math::min(n - 1, (now - start) / s.step_delta());
            0 <= latest && (n - latest <= s.steps ==> run.current_step(now) == latest % s.steps)
        }),
{
    let d: int = s.step_delta();
    lemma_step_span_exact(s.tempo, s.steps);
    let reached: int = (now - start) / d;
    let latest: int = vstd::math::min(n - 1, reached);
    crate::arith::lemma_fits(0, now - start, d);
    assert(0 * d == 0) by (nonlinear_arith);
    assert(0 <= reached);
    if n - latest <= s.steps {
        let j: int = n - 1 - latest;
        crate::arith::lemma_fits(latest, now - start, d);
        assert forall|i: int| 0 <= i < j implies #[trigger] time_back(s, start, n, i) > now by {
            crate::arith::lemma_fits(n - 1 - i, now - start, d);
        }
        lemma_walk_after_run(s, start, n, now, j, 0);
    }
}

} // verus!
