//! The track sequencer: one instrument's pattern and its lookahead scheduler.

use crate::arith::{lemma_mod_add, lemma_mod_near};
use crate::error::SequencerError;
use crate::sounds::{str_equal, SoundParams};
use crate::timing::{
    lemma_step_span_exact, step_delta, valid_steps, valid_tempo, LEAD_IN, MAX_HORIZON,
    PATTERN_SLOTS,
};
use crate::track::{
    lemma_advance_add, lemma_advance_one, lemma_due_unique, Firing, TrackState,
};
use vstd::prelude::*;

verus! {

/// What one slot of a pattern does when its step comes round.
#[derive(Clone, Copy, Debug, PartialEq, Eq)]
pub enum Trigger {
    /// No sound.
    Empty,
    /// The track's default sound, as it is when the step is resolved.
    Normal,
    /// This sound, whatever the default is.
    Locked(SoundParams),
}

impl Trigger {
    /// What the trigger sounds like while `default_params` is the track's
    /// default. An empty slot is silent, a normal one takes the default, a
    /// locked one its own snapshot.
    pub open spec fn spec_resolve(&self, default_params: SoundParams) -> Option<SoundParams> {
        match self {
            Trigger::Empty => None,
            Trigger::Normal => Some(default_params),
            Trigger::Locked(params) => Some(*params),
        }
    }

    /// What the trigger sounds like while `default_params` is the track's
    /// default.
    #[verifier::when_used_as_spec(spec_resolve)]
    pub fn resolve(&self, default_params: SoundParams) -> (params: Option<SoundParams>)
        ensures
            params == self.spec_resolve(default_params),
    {
        match self {
            Trigger::Empty => None,
            Trigger::Normal => Some(default_params),
            Trigger::Locked(params) => Some(*params),
        }
    }
}

/// One resolved step, as the scheduler hands it to the voice.
#[derive(Clone, Copy, Debug, PartialEq, Eq)]
pub struct StepEvent {
    /// The slot that was resolved.
    pub step: usize,
    /// The time it was scheduled for.
    pub time: u64,
    /// The track's offset when it was resolved.
    pub offset: i64,
    /// What to render; `None` for an empty slot.
    pub params: Option<SoundParams>,
}

impl View for StepEvent {
    type V = Firing;

    open spec fn view(&self) -> Firing {
        Firing {
            step: self.step as int,
            time: self.time as int,
            offset: self.offset as int,
            params: self.params,
        }
    }
}

impl StepEvent {
    /// The time at which the voice of this event starts: its scheduled time,
    /// corrected by the offset, and the fixed lead-in later.
    pub fn start_time(&self) -> (start: i128)
        ensures
            start == self.time + self.offset + LEAD_IN,
    {
        (self.time as i128) + (self.offset as i128) + (LEAD_IN as i128)
    }
}

/// What an editor wants of one step.
#[derive(Clone, Copy, Debug, PartialEq, Eq, Structural)]
pub enum StepType {
    /// Play the supplied values, and make them the default of the track.
    Trigger,
    /// Play the supplied values on this step alone.
    LockTrigger,
    /// Play nothing.
    Empty,
}

/// The step type that a name stands for: `"trigger"` and `"lock_trigger"`
/// are themselves, every other name leaves the step empty.
pub open spec fn step_type_named(name: Seq<char>) -> StepType {
    if name == "trigger"@ {
        StepType::Trigger
    } else if name == "lock_trigger"@ {
        StepType::LockTrigger
    } else {
        StepType::Empty
    }
}

impl StepType {
    /// The step type that a name stands for.
    pub fn from_name(name: &str) -> (step_type: StepType)
        ensures
            step_type == step_type_named(name@),
    {
        if str_equal(name, "trigger") {
            StepType::Trigger
        } else if str_equal(name, "lock_trigger") {
            StepType::LockTrigger
        } else {
            StepType::Empty
        }
    }
}

/// One step of a pattern as an editor describes it: what the step is to do,
/// and the values that the editor shows for it.
#[derive(Clone, Copy, Debug, PartialEq, Eq)]
pub struct StepValues {
    pub step_type: StepType,
    pub params: SoundParams,
}

impl StepValues {
    /// The trigger that this description puts into its slot.
    pub open spec fn spec_trigger(&self) -> Trigger {
        match self.step_type {
            StepType::Trigger => Trigger::Normal,
            StepType::LockTrigger => Trigger::Locked(self.params),
            StepType::Empty => Trigger::Empty,
        }
    }

    /// The trigger that this description puts into its slot.
    #[verifier::when_used_as_spec(spec_trigger)]
    pub fn trigger(&self) -> (trigger: Trigger)
        ensures
            trigger == self.spec_trigger(),
    {
        match self.step_type {
            StepType::Trigger => Trigger::Normal,
            StepType::LockTrigger => Trigger::Locked(self.params),
            StepType::Empty => Trigger::Empty,
        }
    }
}

/// One track: a pattern, the sound of its normal steps, and the state of its
/// scheduler.
#[derive(Clone, Copy)]
pub struct Sequencer {
    sequence: [Trigger; PATTERN_SLOTS],
    trigger_times: [Option<u64>; PATTERN_SLOTS],
    default_params: SoundParams,
    tempo: u32,
    steps: usize,
    step_to_schedule: usize,
    step_playing: usize,
    next_step_time: u64,
    step_delta: u64,
    offset: i64,
}

impl View for Sequencer {
    type V = TrackState;

    closed spec fn view(&self) -> TrackState {
        TrackState {
            pattern: self.sequence@,
            default_params: self.default_params,
            tempo: self.tempo as int,
            steps: self.steps as int,
            offset: self.offset as int,
            cursor: self.step_to_schedule as int,
            next_time: self.next_step_time as int,
            history: Seq::new(
                PATTERN_SLOTS as nat,
                |i: int|
                    match self.trigger_times@[i] {
                        Some(time) => Some(time as int),
                        None => None,
                    },
            ),
            playing: self.step_playing as int,
        }
    }
}

impl Sequencer {
    #[verifier::type_invariant]
    spec fn inv(&self) -> bool {
        &&& self@.wf()
        &&& self.step_delta == self@.step_delta()
    }

    /// A stopped track at `tempo` with sixteen active steps, all of them
    /// empty, and no offset.
    pub fn new(tempo: u32, default_params: SoundParams) -> (sequencer: Sequencer)
        requires
            valid_tempo(tempo as int),
        ensures
            sequencer@ == TrackState::fresh(tempo as int, default_params),
            sequencer@.wf(),
    {
        let sequencer = Sequencer {
            sequence: [Trigger::Empty; PATTERN_SLOTS],
            trigger_times: [None; PATTERN_SLOTS],
            default_params,
            tempo,
            steps: PATTERN_SLOTS,
            step_to_schedule: 0,
            step_playing: 0,
            next_step_time: 0,
            step_delta: step_delta(tempo, PATTERN_SLOTS),
            offset: 0,
        };
        proof {
            assert(sequencer@.pattern =~= Seq::new(PATTERN_SLOTS as nat, |i: int| Trigger::Empty));
            assert(sequencer@.history =~= Seq::new(PATTERN_SLOTS as nat, |i: int| None));
        }
        sequencer
    }

    /// Starts playback at `now`: the next step is scheduled for that time.
    pub fn play(&mut self, now: u64)
        ensures
            final(self)@ == old(self)@.played(now as int),
            final(self)@.wf(),
    {
        proof {
            use_type_invariant(&*self);
        }
        self.next_step_time = now;
    }

    /// Stops playback: the cursor goes back to the first step and the history
    /// is forgotten. Tempo, pattern and the time of the next step stay.
    pub fn stop(&mut self)
        ensures
            final(self)@ == old(self)@.stopped(),
            final(self)@.wf(),
    {
        proof {
            use_type_invariant(&*self);
        }
        self.step_to_schedule = 0;
        self.step_playing = 0;
        self.trigger_times = [None; PATTERN_SLOTS];
        proof {
            assert(self@.history =~= old(self)@.stopped().history);
        }
    }

    /// Resolves every step that is due before `now + schedule_interval`, in
    /// order, and returns the resolutions: one event per step, silent ones
    /// included. Each resolved step is entered in the history with its time;
    /// the cursor and the time of the next step move on by as many steps as
    /// were resolved. However late the call comes, no step is skipped and
    /// every time is a whole number of step spans after the first.
    pub fn schedule_sounds(&mut self, now: u64, schedule_interval: u64) -> (events: Vec<StepEvent>)
        requires
            now + schedule_interval <= MAX_HORIZON,
        ensures
            final(self)@ == old(self)@.scheduled(now + schedule_interval),
            final(self)@.wf(),
            events@.len() == old(self)@.due(now + schedule_interval),
            forall|k: int|
                0 <= k < events@.len() ==> (#[trigger] events@[k])@ == old(self)@.firing(k),
    {
        proof {
            use_type_invariant(&*self);
        }
        let horizon: u64 = now + schedule_interval;
        let mut events: Vec<StepEvent> = Vec::new();
        let ghost start: TrackState = self@;
        let ghost mut n: int = 0;
        proof {
            lemma_advance_one(start);
        }
        while self.next_step_time < horizon
            invariant
                start.wf(),
                horizon <= MAX_HORIZON,
                0 <= n,
                self@ == start.advance(n),
                n > 0 ==> start.time_at(n - 1) < horizon,
                events@.len() == n,
                forall|k: int| 0 <= k < n ==> (#[trigger] events@[k])@ == start.firing(k),
            decreases u64::MAX - self.next_step_time,
        {
            proof {
                use_type_invariant(&*self);
                lemma_advance_add(start, n, 0);
                lemma_advance_add(start, n, 1);
                lemma_advance_one(self@);
                lemma_step_span_exact(self@.tempo, self@.steps);
            }
            let ghost before: TrackState = self@;
            let step: usize = self.step_to_schedule;
            let time: u64 = self.next_step_time;
            let params: Option<SoundParams> = self.sequence[step].resolve(self.default_params);
            events.push(StepEvent { step, time, offset: self.offset, params });
            self.trigger_times[step] = Some(time);
            self.step_to_schedule = if step + 1 < self.steps {
                step + 1
            } else {
                0
            };
            self.next_step_time = time + self.step_delta;
            proof {
                assert(self@.history =~= before.history.update(step as int, Some(time as int)));
                assert(self@ == before.advance(1));
                assert(before.firing(0) == start.firing(n + 0));
                n = n + 1;
            }
        }
        proof {
            lemma_due_unique(start, horizon as int, n);
        }
        events
    }

    /// Changes the tempo. The new step span holds from the next resolution
    /// on; the time of the next step stays as it was computed. A tempo of zero
    /// is refused.
    pub fn set_tempo(&mut self, tempo: u32) -> (done: Result<(), SequencerError>)
        ensures
            valid_tempo(tempo as int) ==> done is Ok && final(self)@ == old(self)@.with_tempo(
                tempo as int,
            ),
            !valid_tempo(tempo as int) ==> done == Err::<(), SequencerError>(SequencerError::Tempo)
                && final(self)@ == old(self)@,
            final(self)@.wf(),
    {
        proof {
            use_type_invariant(&*self);
        }
        if tempo == 0 {
            return Err(SequencerError::Tempo);
        }
        *self = Sequencer { tempo, step_delta: step_delta(tempo, self.steps), ..*self };
        Ok(())
    }

    /// Changes the active length of the pattern, and with it the step span,
    /// so that a bar stays a bar. A cursor that the new length leaves outside
    /// goes back to the first step. A length outside `1..=16` is refused.
    pub fn set_length(&mut self, steps: i8) -> (done: Result<(), SequencerError>)
        ensures
            valid_steps(steps as int) ==> done is Ok && final(self)@ == old(self)@.with_length(
                steps as int,
            ),
            !valid_steps(steps as int) ==> done == Err::<(), SequencerError>(
                SequencerError::TrackLength,
            ) && final(self)@ == old(self)@,
            final(self)@.wf(),
    {
        proof {
            use_type_invariant(&*self);
        }
        if steps < 1 || steps > 16 {
            return Err(SequencerError::TrackLength);
        }
        let steps: usize = steps as usize;
        *self = Sequencer {
            steps,
            step_delta: step_delta(self.tempo, steps),
            step_to_schedule: if self.step_to_schedule < steps {
                self.step_to_schedule
            } else {
                0
            },
            step_playing: if self.step_playing < steps {
                self.step_playing
            } else {
                0
            },
            ..*self
        };
        Ok(())
    }

    /// Changes the offset that every later event carries.
    pub fn set_offset(&mut self, offset: i64)
        ensures
            final(self)@ == old(self)@.with_offset(offset as int),
            final(self)@.wf(),
    {
        proof {
            use_type_invariant(&*self);
        }
        self.offset = offset;
    }

    /// Replaces all sixteen slots of the pattern at once.
    pub fn set_pattern(&mut self, pattern: [Trigger; PATTERN_SLOTS])
        ensures
            final(self)@ == old(self)@.with_pattern(pattern@),
            final(self)@.wf(),
    {
        proof {
            use_type_invariant(&*self);
        }
        self.sequence = pattern;
    }

    /// Rewrites the pattern from an editor's sixteen step descriptions.
    ///
    /// Each description puts its trigger into its slot, and each of type
    /// `Trigger` also makes its values the default sound, in the order of the
    /// steps, so that the last of them has the last word. A list that does
    /// not have exactly sixteen elements is refused, and nothing changes.
    pub fn update_steps(&mut self, steps: &[StepValues]) -> (done: Result<(), SequencerError>)
        ensures
            steps@.len() == PATTERN_SLOTS ==> done is Ok && final(self)@ == old(self)@.edited(
                steps@,
            ),
            steps@.len() != PATTERN_SLOTS ==> done == Err::<(), SequencerError>(
                SequencerError::PatternLength,
            ) && final(self)@ == old(self)@,
            final(self)@.wf(),
    {
        proof {
            use_type_invariant(&*self);
        }
        if steps.len() != PATTERN_SLOTS {
            return Err(SequencerError::PatternLength);
        }
        let mut pattern: [Trigger; PATTERN_SLOTS] = [Trigger::Empty; PATTERN_SLOTS];
        let mut default_params: SoundParams = self.default_params;
        let mut i: usize = 0;
        while i < PATTERN_SLOTS
            invariant
                i <= PATTERN_SLOTS,
                steps@.len() == PATTERN_SLOTS,
                forall|j: int| 0 <= j < i ==> pattern@[j] == steps@[j].trigger(),
                default_params == self@.default_after(steps@, i as int),
            decreases PATTERN_SLOTS - i,
        {
            let step: StepValues = steps[i];
            pattern[i] = step.trigger();
            if step.step_type == StepType::Trigger {
                default_params = step.params;
            }
            i += 1;
        }
        self.sequence = pattern;
        self.default_params = default_params;
        proof {
            assert(self@.pattern =~= old(self)@.edited(steps@).pattern);
        }
        Ok(())
    }

    /// Makes `params` the sound of the normal steps, from their next
    /// resolution on. Locked steps keep their own sound.
    pub fn update_default(&mut self, params: SoundParams)
        ensures
            final(self)@ == old(self)@.with_default(params),
            final(self)@.wf(),
    {
        proof {
            use_type_invariant(&*self);
        }
        self.default_params = params;
    }

    /// The pattern, all sixteen slots of it.
    pub fn sequence(&self) -> (pattern: [Trigger; PATTERN_SLOTS])
        ensures
            pattern@ == self@.pattern,
    {
        self.sequence
    }

    /// The active length of the pattern.
    pub fn steps(&self) -> (steps: i8)
        ensures
            steps == self@.steps,
            valid_steps(steps as int),
    {
        proof {
            use_type_invariant(self);
        }
        self.steps as i8
    }

    /// The tempo.
    pub fn tempo(&self) -> (tempo: u32)
        ensures
            tempo == self@.tempo,
            valid_tempo(tempo as int),
    {
        proof {
            use_type_invariant(self);
        }
        self.tempo
    }

    /// Ticks from one step to the next: a bar at the tempo, divided by the
    /// active length.
    pub fn step_delta(&self) -> (delta: u64)
        ensures
            delta == self@.step_delta(),
            delta == crate::timing::step_span(self@.tempo, self@.steps),
    {
        proof {
            use_type_invariant(self);
        }
        self.step_delta
    }

    /// The offset that events carry.
    pub fn offset(&self) -> (offset: i64)
        ensures
            offset == self@.offset,
    {
        self.offset
    }

    /// The sound of the normal steps.
    pub fn default_params(&self) -> (params: SoundParams)
        ensures
            params == self@.default_params,
    {
        self.default_params
    }

    /// The time for which the next step will be scheduled.
    pub fn next_step_time(&self) -> (time: u64)
        ensures
            time == self@.next_time,
    {
        self.next_step_time
    }
}

/// The slot before `i` on a track of `steps` active slots; before the first
/// comes the last.
fn get_step(i: usize, steps: usize) -> (step: usize)
    requires
        i < steps,
    ensures
        step == (i - 1) % (steps as int),
        step < steps,
{
    proof {
        lemma_mod_near(i - 1, steps as int);
    }
    if i == 0 {
        steps - 1
    } else {
        i - 1
    }
}

/// The step that is audible at `time`, for a display to highlight.
///
/// The scheduler runs ahead of the clock, so the cursor does not say it. The
/// query walks back from just behind the cursor through the active slots and
/// answers with the first whose latest resolution `time` has reached. Where
/// one round finds none, it repeats its last answer. The answer is
/// remembered.
pub fn get_sequencer_steps(sequencer: &mut Sequencer, time: u64) -> (step: i8)
    ensures
        step == old(sequencer)@.current_step(time as int),
        final(sequencer)@ == old(sequencer)@.queried(time as int),
        final(sequencer)@.wf(),
        0 <= step < old(sequencer)@.steps,
{
    proof {
        use_type_invariant(&*sequencer);
    }
    let ghost start: TrackState = sequencer@;
    let steps: usize = sequencer.steps;
    let mut step: usize = get_step(sequencer.step_to_schedule, steps);
    let mut k: usize = 0;
    proof {
        lemma_mod_add(start.cursor - 1, 0, start.steps);
    }
    while k < steps
        invariant
            start.wf(),
            start == old(sequencer)@,
            sequencer@ == start,
            steps == start.steps,
            k <= steps,
            step < steps,
            step == start.probe(k as int),
            start.look_back(time as int, k as int) == start.current_step(time as int),
        decreases steps - k,
    {
        proof {
            use_type_invariant(&*sequencer);
        }
        match sequencer.trigger_times[step] {
            Some(fired) => {
                if fired <= time {
                    proof {
                        assert(start.history[step as int] == Some(fired as int));
                    }
                    sequencer.step_playing = step;
                    return step as i8;
                }
            },
            None => {},
        }
        proof {
            assert(!start.heard(step as int, time as int));
            lemma_mod_add(start.cursor - 1 - k, -1, start.steps);
            assert(start.cursor - 1 - k + (-1) == start.cursor - 1 - (k + 1));
        }
        step = get_step(step, steps);
        k += 1;
    }
    sequencer.step_playing as i8
}

} // verus!
