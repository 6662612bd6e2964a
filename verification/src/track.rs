//! The mathematical model of one track.
//!
//! A [`TrackState`] is what a sequencer is, with unbounded integers in the
//! place of machine words. Every contract of the sequencer is stated over the
//! functions of this module, and so are the laws that relate its operations.

use crate::arith::{lemma_div_ceil, lemma_div_ceil_bounds, lemma_mod_add, lemma_mod_near};
use crate::sequencer::{StepType, StepValues, Trigger};
use crate::sounds::{Instrument, SoundParams};
use crate::timing::{lemma_step_span_exact, step_span, valid_steps, valid_tempo, PATTERN_SLOTS};
use vstd::prelude::*;

verus! {

/// One resolution of a step: which slot was resolved, for which time, and
/// what it hands to the voice. `params` is `None` where the slot is empty.
pub struct Firing {
    pub step: int,
    pub time: int,
    pub offset: int,
    pub params: Option<SoundParams>,
}

/// The state of one track.
pub struct TrackState {
    /// The sixteen slots, in playback order.
    pub pattern: Seq<Trigger>,
    /// The sound of the `Normal` slots.
    pub default_params: SoundParams,
    pub tempo: int,
    /// How many of the slots are played.
    pub steps: int,
    /// Correction added to every start time.
    pub offset: int,
    /// The next slot to resolve.
    pub cursor: int,
    /// The time of the next resolution.
    pub next_time: int,
    /// For each slot, the time of its latest resolution since the last stop.
    pub history: Seq<Option<int>>,
    /// The slot that the last step query answered with.
    pub playing: int,
}

impl TrackState {
    /// A stopped track at `tempo`: sixteen active steps, all of them empty,
    /// no offset, nothing scheduled and nothing heard.
    pub open spec fn fresh(tempo: int, default_params: SoundParams) -> TrackState {
        TrackState {
            pattern: Seq::new(PATTERN_SLOTS as nat, |i: int| Trigger::Empty),
            default_params,
            tempo,
            steps: PATTERN_SLOTS as int,
            offset: 0,
            cursor: 0,
            next_time: 0,
            history: Seq::new(PATTERN_SLOTS as nat, |i: int| None),
            playing: 0,
        }
    }

    /// What holds of every track: sixteen slots, of which the first `steps`
    /// are active, and a cursor and a last answer among the active ones.
    pub open spec fn wf(self) -> bool {
        &&& self.pattern.len() == PATTERN_SLOTS
        &&& self.history.len() == PATTERN_SLOTS
        &&& valid_tempo(self.tempo)
        &&& valid_steps(self.steps)
        &&& 0 <= self.cursor < self.steps
        &&& 0 <= self.playing < self.steps
    }

    /// Ticks from one step to the next.
    pub open spec fn step_delta(self) -> int {
        step_span(self.tempo, self.steps)
    }

    /// Whether two tracks are set up alike: the same pattern, default sound,
    /// tempo, length and offset.
    pub open spec fn same_setup(self, other: TrackState) -> bool {
        &&& self.pattern == other.pattern
        &&& self.default_params == other.default_params
        &&& self.tempo == other.tempo
        &&& self.steps == other.steps
        &&& self.offset == other.offset
    }

    /// What the slot `step` sounds like now, with the default as it is at this
    /// moment.
    pub open spec fn resolve(self, step: int) -> Option<SoundParams> {
        self.pattern[step].spec_resolve(self.default_params)
    }

    /// The slot of the `k`-th resolution from here.
    pub open spec fn step_at(self, k: int) -> int {
        (self.cursor + k) % self.steps
    }

    /// The time of the `k`-th resolution from here.
    pub open spec fn time_at(self, k: int) -> int {
        self.next_time + k * self.step_delta()
    }

    /// The `k`-th resolution from here.
    pub open spec fn firing(self, k: int) -> Firing {
        Firing {
            step: self.step_at(k),
            time: self.time_at(k),
            offset: self.offset,
            params: self.resolve(self.step_at(k)),
        }
    }

    /// How many resolutions are due before `horizon`: the resolutions whose
    /// time is earlier than the horizon.
    pub open spec fn due(self, horizon: int) -> int {
        if horizon <= self.next_time {
            0
        } else {
            (horizon - self.next_time + self.step_delta() - 1) / self.step_delta()
        }
    }

    /// The resolutions that are due before `horizon`, in order.
    pub open spec fn firings(self, horizon: int) -> Seq<Firing> {
        Seq::new(self.due(horizon) as nat, |k: int| self.firing(k))
    }

    /// Among the next `n` resolutions, the last one that lands on `step`;
    /// negative where none of them does.
    pub open spec fn last_landing(self, n: int, step: int) -> int {
        n - 1 - (self.cursor + n - 1 - step) % self.steps
    }

    /// The track after its next `n` resolutions.
    pub open spec fn advance(self, n: int) -> TrackState {
        TrackState {
            cursor: self.step_at(n),
            next_time: self.time_at(n),
            history: Seq::new(
                PATTERN_SLOTS as nat,
                |i: int|
                    if i < self.steps && self.last_landing(n, i) >= 0 {
                        Some(self.time_at(self.last_landing(n, i)))
                    } else {
                        self.history[i]
                    },
            ),
            ..self
        }
    }

    /// The track after everything due before `horizon` is resolved.
    pub open spec fn scheduled(self, horizon: int) -> TrackState {
        self.advance(self.due(horizon))
    }

    /// How far a run of ticks reaches: the latest of their horizons, and
    /// `floor` where there is none later.
    pub open spec fn reach(floor: int, horizons: Seq<int>) -> int
        decreases horizons.len(),
    {
        if horizons.len() == 0 {
            floor
        } else {
            vstd::math::max(Self::reach(floor, horizons.drop_last()), horizons.last())
        }
    }

    /// The track after one tick for each of `horizons`, in order.
    pub open spec fn after_ticks(self, horizons: Seq<int>) -> TrackState
        decreases horizons.len(),
    {
        if horizons.len() == 0 {
            self
        } else {
            self.after_ticks(horizons.drop_last()).scheduled(horizons.last())
        }
    }

    /// Everything that one tick for each of `horizons` resolves, in order.
    pub open spec fn firings_over(self, horizons: Seq<int>) -> Seq<Firing>
        decreases horizons.len(),
    {
        if horizons.len() == 0 {
            Seq::empty()
        } else {
            self.firings_over(horizons.drop_last()) + self.after_ticks(
                horizons.drop_last(),
            ).firings(horizons.last())
        }
    }

    /// The track after playback is (re)started at `now`.
    pub open spec fn played(self, now: int) -> TrackState {
        TrackState { next_time: now, ..self }
    }

    /// The track after a stop: back at the first slot, with no history.
    pub open spec fn stopped(self) -> TrackState {
        TrackState {
            cursor: 0,
            playing: 0,
            history: Seq::new(PATTERN_SLOTS as nat, |i: int| None),
            ..self
        }
    }

    /// The track with a new tempo.
    pub open spec fn with_tempo(self, tempo: int) -> TrackState {
        TrackState { tempo, ..self }
    }

    /// The track with a new active length. A cursor or a last answer that the
    /// new length leaves outside goes back to the first slot.
    pub open spec fn with_length(self, steps: int) -> TrackState {
        TrackState {
            steps,
            cursor: if self.cursor < steps {
                self.cursor
            } else {
                0
            },
            playing: if self.playing < steps {
                self.playing
            } else {
                0
            },
            ..self
        }
    }

    /// The track with a new offset.
    pub open spec fn with_offset(self, offset: int) -> TrackState {
        TrackState { offset, ..self }
    }

    /// The track with a new pattern.
    pub open spec fn with_pattern(self, pattern: Seq<Trigger>) -> TrackState {
        TrackState { pattern, ..self }
    }

    /// The track with a new default sound. The pattern stays as it is.
    pub open spec fn with_default(self, params: SoundParams) -> TrackState {
        TrackState { default_params: params, ..self }
    }

    /// The default sound after the first `n` of `steps` are taken: the
    /// values of the last of them that is of type `Trigger`, and the present
    /// default where none is.
    pub open spec fn default_after(self, steps: Seq<StepValues>, n: int) -> SoundParams
        decreases n,
    {
        if n <= 0 {
            self.default_params
        } else if steps[n - 1].step_type == StepType::Trigger {
            steps[n - 1].params
        } else {
            self.default_after(steps, n - 1)
        }
    }

    /// Whether everything that the track can sound like is a sound of the
    /// instrument `which`: its default, and each locked step's own sound.
    pub open spec fn plays(self, which: Instrument) -> bool {
        &&& self.default_params.instrument() == which
        &&& forall|i: int|
            0 <= i < self.pattern.len() ==> (#[trigger] self.pattern[i] matches Trigger::Locked(
                params,
            ) ==> params.instrument() == which)
    }

    /// The track after its sixteen slots are rewritten from `steps`. The
    /// pattern is replaced as a whole, and the default sound becomes that of
    /// the last step of type `Trigger`, if there is one.
    pub open spec fn edited(self, steps: Seq<StepValues>) -> TrackState {
        TrackState {
            pattern: Seq::new(PATTERN_SLOTS as nat, |i: int| steps[i].trigger()),
            default_params: self.default_after(steps, PATTERN_SLOTS as int),
            ..self
        }
    }

    /// The slot that the `k`-th probe of a step query looks at: the walk
    /// starts just behind the cursor and goes backwards, wrapping round.
    pub open spec fn probe(self, k: int) -> int {
        (self.cursor - 1 - k) % self.steps
    }

    /// Whether the slot `step` has a resolution on record that `now` has
    /// reached.
    pub open spec fn heard(self, step: int, now: int) -> bool {
        self.history[step] matches Some(time) && time <= now
    }

    /// The answer of a step query that has made `k` probes in vain: the slot
    /// of the first later probe that finds a resolution already heard, or the
    /// last answer where one round of the active slots finds none.
    pub open spec fn look_back(self, now: int, k: int) -> int
        decreases self.steps - k,
    {
        if k >= self.steps {
            self.playing
        } else if self.heard(self.probe(k), now) {
            self.probe(k)
        } else {
            self.look_back(now, k + 1)
        }
    }

    /// The slot that is audible at `now`.
    pub open spec fn current_step(self, now: int) -> int {
        self.look_back(now, 0)
    }

    /// The track after a step query at `now`, which remembers its answer.
    pub open spec fn queried(self, now: int) -> TrackState {
        TrackState { playing: self.current_step(now), ..self }
    }
}

/// One resolution writes the time of the step into the history, moves the
/// cursor on by one slot, wrapping after the last active one, and the time on
/// by one step span.
pub proof fn lemma_advance_one(s: TrackState)
    requires
        s.wf(),
    ensures
        s.advance(0) == s,
        s.advance(1) == (TrackState {
            cursor: if s.cursor + 1 < s.steps {
                s.cursor + 1
            } else {
                0
            },
            next_time: s.next_time + s.step_delta(),
            history: s.history.update(s.cursor, Some(s.next_time)),
            ..s
        }),
{
    let m: int = s.steps;
    let d: int = s.step_delta();
    lemma_mod_near(s.cursor, m);
    lemma_mod_near(s.cursor + 1, m);
    assert(0 * d == 0) by (nonlinear_arith);
    assert(1 * d == d) by (nonlinear_arith);
    assert forall|i: int| 0 <= i < PATTERN_SLOTS implies s.advance(0).history[i]
        == s.history[i] by {
        if i < m {
            lemma_mod_add(s.cursor - 1 - i, 0, m);
        }
    }
    assert(s.advance(0).history =~= s.history);
    let after: Seq<Option<int>> = s.history.update(s.cursor, Some(s.next_time));
    assert forall|i: int| 0 <= i < PATTERN_SLOTS implies s.advance(1).history[i] == after[i] by {
        if i < m {
            lemma_mod_near(s.cursor - i, m);
        }
    }
    assert(s.advance(1).history =~= after);
}

/// Resolving `a` steps and then `b` more is resolving `a + b` steps.
pub proof fn lemma_advance_add(s: TrackState, a: int, b: int)
    requires
        s.wf(),
        0 <= a,
        0 <= b,
    ensures
        s.advance(a).wf(),
        s.advance(a).advance(b) == s.advance(a + b),
        forall|k: int| s.advance(a).firing(k) == s.firing(a + k),
{
    let m: int = s.steps;
    let d: int = s.step_delta();
    let c: int = s.cursor;
    let mid: TrackState = s.advance(a);
    let left: TrackState = mid.advance(b);
    let right: TrackState = s.advance(a + b);
    lemma_mod_add(c + a, b, m);
    assert(c + a + b == c + (a + b));
    assert(a * d + b * d == (a + b) * d) by (nonlinear_arith);
    assert forall|k: int| mid.firing(k) == s.firing(a + k) by {
        lemma_mod_add(c + a, k, m);
        assert(c + a + k == c + (a + k));
        assert(a * d + k * d == (a + k) * d) by (nonlinear_arith);
    }
    assert forall|i: int| 0 <= i < PATTERN_SLOTS implies left.history[i] == right.history[i] by {
        if i < m {
            let wrapped: int = (c + a + b - 1 - i) % m;
            lemma_mod_add(c + a, b - 1 - i, m);
            assert(c + a + (b - 1 - i) == c + a + b - 1 - i);
            assert(c + (a + b) - 1 - i == c + a + b - 1 - i);
            assert(mid.last_landing(b, i) == b - 1 - wrapped);
            assert(s.last_landing(a + b, i) == a + b - 1 - wrapped);
            let late: int = b - 1 - wrapped;
            if late >= 0 {
                assert(a * d + late * d == (a + late) * d) by (nonlinear_arith);
            } else {
                let before: int = (c + a - 1 - i) % m;
                lemma_mod_add(c + a - 1 - i, b, m);
                assert(c + a - 1 - i + b == c + a + b - 1 - i);
                lemma_mod_near(before + b, m);
                assert(wrapped == before + b);
            }
        }
    }
    assert(left.history =~= right.history);
}

/// The number of resolutions due before a horizon is the least `n` whose
/// `n`-th resolution from here is not earlier than the horizon. Over a span
/// `horizon - next_time` that is not negative, it is the span divided by the
/// step span, rounded down, or one more.
pub proof fn lemma_due_least(s: TrackState, horizon: int)
    requires
        s.wf(),
    ensures
        0 <= s.due(horizon),
        s.time_at(s.due(horizon)) >= horizon,
        s.due(horizon) > 0 ==> s.time_at(s.due(horizon) - 1) < horizon,
        horizon >= s.next_time ==> (horizon - s.next_time) / s.step_delta() <= s.due(horizon) <= (
        horizon - s.next_time) / s.step_delta() + 1,
{
    let d: int = s.step_delta();
    lemma_step_span_exact(s.tempo, s.steps);
    if horizon <= s.next_time {
        assert(0 * d == 0) by (nonlinear_arith);
        if horizon == s.next_time {
            vstd::arithmetic::div_mod::lemma_div_basics_1(d);
        }
    } else {
        lemma_div_ceil_bounds(horizon - s.next_time, d);
    }
}

/// A count of resolutions is the number due before a horizon as soon as its
/// last resolution is earlier than the horizon and the next one is not.
pub proof fn lemma_due_unique(s: TrackState, horizon: int, n: int)
    requires
        s.wf(),
        0 <= n,
        s.time_at(n) >= horizon,
        n > 0 ==> s.time_at(n - 1) < horizon,
    ensures
        s.due(horizon) == n,
{
    let d: int = s.step_delta();
    lemma_step_span_exact(s.tempo, s.steps);
    if n == 0 {
        assert(0 * d == 0) by (nonlinear_arith);
    } else {
        assert(s.next_time < horizon) by (nonlinear_arith)
            requires
                s.next_time + (n - 1) * d < horizon,
                n >= 1,
                d >= 1,
        ;
        lemma_div_ceil(horizon - s.next_time, d, n);
    }
}

/// A track that plays one instrument still does after its pattern is
/// rewritten from steps whose values are all for that instrument.
pub proof fn lemma_edited_plays(s: TrackState, steps: Seq<StepValues>, which: Instrument)
    requires
        s.plays(which),
        steps.len() == PATTERN_SLOTS,
        forall|i: int| 0 <= i < steps.len() ==> (#[trigger] steps[i]).params.instrument() == which,
    ensures
        s.edited(steps).plays(which),
{
    lemma_default_after_among(s, steps, PATTERN_SLOTS as int);
    assert forall|i: int| 0 <= i < s.edited(steps).pattern.len() implies (
    #[trigger] s.edited(steps).pattern[i] matches Trigger::Locked(params) ==> params.instrument()
        == which) by {
        assert(s.edited(steps).pattern[i] == steps[i].trigger());
    }
}

/// The default sound after an edit is the old one or the values of one of
/// the steps taken.
pub proof fn lemma_default_after_among(s: TrackState, steps: Seq<StepValues>, n: int)
    requires
        n <= steps.len(),
    ensures
        s.default_after(steps, n) == s.default_params || exists|i: int|
            0 <= i < n && s.default_after(steps, n) == (#[trigger] steps[i]).params,
    decreases n,
{
    if n > 0 {
        if steps[n - 1].step_type == StepType::Trigger {
            assert(s.default_after(steps, n) == steps[n - 1].params);
        } else {
            lemma_default_after_among(s, steps, n - 1);
        }
    }
}

} // verus!
