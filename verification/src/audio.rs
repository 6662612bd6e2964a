//! The transport: the three tracks under one tempo.

use crate::error::SequencerError;
use crate::sequencer::{get_sequencer_steps, Sequencer, StepEvent, StepValues};
use crate::sounds::hat::{hat_steps, HatParams, HatValues};
use crate::sounds::kick::{kick_steps, KickParams, KickValues};
use crate::sounds::snare::{snare_steps, SnareParams, SnareValues};
use crate::sounds::{instrument_named, wave_string_to_osc, waveform_named, Instrument, SoundParams};
use crate::timing::{valid_steps, valid_tempo, MAX_HORIZON, PATTERN_SLOTS};
use crate::track::TrackState;
use vstd::prelude::*;

verus! {

/// The tempo of a new transport: ninety beats per minute.
pub const INITIAL_TEMPO: u32 = 90_000;

/// The lookahead window of a new transport: forty milliseconds.
pub const SCHEDULE_INTERVAL: u64 = 40_000_000;

/// The state of the transport.
pub struct AudioState {
    /// How far past the clock each tick schedules.
    pub schedule_interval: int,
    /// The tempo that all tracks share.
    pub tempo: int,
    pub kick: TrackState,
    pub snare: TrackState,
    pub hat: TrackState,
}

impl AudioState {
    /// A new transport: three stopped tracks with empty patterns, each with
    /// the initial sound of its instrument.
    pub open spec fn initial() -> AudioState {
        AudioState {
            schedule_interval: SCHEDULE_INTERVAL as int,
            tempo: INITIAL_TEMPO as int,
            kick: TrackState::fresh(
                INITIAL_TEMPO as int,
                SoundParams::Kick(KickParams::initial()),
            ),
            snare: TrackState::fresh(
                INITIAL_TEMPO as int,
                SoundParams::Snare(SnareParams::initial()),
            ),
            hat: TrackState::fresh(INITIAL_TEMPO as int, SoundParams::Hat(HatParams::initial())),
        }
    }

    /// What holds of every transport: each track is well formed, runs at the
    /// shared tempo, and can sound like its own instrument only.
    pub open spec fn wf(self) -> bool {
        &&& self.kick.wf()
        &&& self.snare.wf()
        &&& self.hat.wf()
        &&& self.kick.tempo == self.tempo
        &&& self.snare.tempo == self.tempo
        &&& self.hat.tempo == self.tempo
        &&& self.kick.plays(Instrument::Kick)
        &&& self.snare.plays(Instrument::Snare)
        &&& self.hat.plays(Instrument::Hat)
        &&& self.schedule_interval == SCHEDULE_INTERVAL
    }

    /// The track of an instrument.
    pub open spec fn track(self, which: Instrument) -> TrackState {
        match which {
            Instrument::Kick => self.kick,
            Instrument::Snare => self.snare,
            Instrument::Hat => self.hat,
        }
    }

    /// The transport with `track` in the place of the track of `which`.
    pub open spec fn with_track(self, which: Instrument, track: TrackState) -> AudioState {
        match which {
            Instrument::Kick => AudioState { kick: track, ..self },
            Instrument::Snare => AudioState { snare: track, ..self },
            Instrument::Hat => AudioState { hat: track, ..self },
        }
    }

    /// The horizon of a tick at `now`.
    pub open spec fn horizon(self, now: int) -> int {
        now + self.schedule_interval
    }

    /// The transport after all tracks are started at `now`.
    pub open spec fn started(self, now: int) -> AudioState {
        AudioState {
            kick: self.kick.played(now),
            snare: self.snare.played(now),
            hat: self.hat.played(now),
            ..self
        }
    }

    /// The transport after all tracks are stopped.
    pub open spec fn stopped(self) -> AudioState {
        AudioState {
            kick: self.kick.stopped(),
            snare: self.snare.stopped(),
            hat: self.hat.stopped(),
            ..self
        }
    }

    /// The transport after a tick at `now`.
    pub open spec fn scheduled(self, now: int) -> AudioState {
        AudioState {
            kick: self.kick.scheduled(self.horizon(now)),
            snare: self.snare.scheduled(self.horizon(now)),
            hat: self.hat.scheduled(self.horizon(now)),
            ..self
        }
    }

    /// The transport at a new tempo, which every track takes.
    pub open spec fn with_tempo(self, tempo: int) -> AudioState {
        AudioState {
            tempo,
            kick: self.kick.with_tempo(tempo),
            snare: self.snare.with_tempo(tempo),
            hat: self.hat.with_tempo(tempo),
            ..self
        }
    }
}

/// Whether `events` are, in order, the resolutions of `track` that are due
/// before `horizon`.
pub open spec fn resolutions_of(events: Seq<StepEvent>, track: TrackState, horizon: int) -> bool {
    &&& events.len() == track.due(horizon)
    &&& forall|k: int| 0 <= k < events.len() ==> (#[trigger] events[k])@ == track.firing(k)
}

/// What one tick resolved, track by track.
pub struct Scheduled {
    pub kick: Vec<StepEvent>,
    pub snare: Vec<StepEvent>,
    pub hat: Vec<StepEvent>,
}

/// The drum machine: a kick, a snare and a hi-hat track that share a tempo
/// and a lookahead window.
pub struct Audio {
    schedule_interval: u64,
    kick_sequencer: Sequencer,
    snare_sequencer: Sequencer,
    hat_sequencer: Sequencer,
    tempo: u32,
}

impl View for Audio {
    type V = AudioState;

    closed spec fn view(&self) -> AudioState {
        AudioState {
            schedule_interval: self.schedule_interval as int,
            tempo: self.tempo as int,
            kick: self.kick_sequencer@,
            snare: self.snare_sequencer@,
            hat: self.hat_sequencer@,
        }
    }
}

impl Audio {
    #[verifier::type_invariant]
    spec fn inv(&self) -> bool {
        self@.wf()
    }

    /// A stopped machine at ninety beats per minute, with empty patterns.
    pub fn new() -> (audio: Audio)
        ensures
            audio@ == AudioState::initial(),
            audio@.wf(),
    {
        Audio {
            schedule_interval: SCHEDULE_INTERVAL,
            kick_sequencer: Sequencer::new(INITIAL_TEMPO, SoundParams::Kick(KickParams::default())),
            snare_sequencer: Sequencer::new(
                INITIAL_TEMPO,
                SoundParams::Snare(SnareParams::default()),
            ),
            hat_sequencer: Sequencer::new(INITIAL_TEMPO, SoundParams::Hat(HatParams::default())),
            tempo: INITIAL_TEMPO,
        }
    }

    /// The tempo that the tracks share.
    pub fn tempo(&self) -> (tempo: u32)
        ensures
            tempo == self@.tempo,
            valid_tempo(tempo as int),
    {
        proof {
            use_type_invariant(self);
        }
        self.tempo
    }

    /// The track of an instrument.
    fn get_sequencer(&self, which: Instrument) -> (sequencer: Sequencer)
        ensures
            sequencer@ == self@.track(which),
            sequencer@.wf(),
            sequencer@.tempo == self@.tempo,
            sequencer@.plays(which),
    {
        proof {
            use_type_invariant(self);
        }
        match which {
            Instrument::Kick => self.kick_sequencer,
            Instrument::Snare => self.snare_sequencer,
            Instrument::Hat => self.hat_sequencer,
        }
    }

    /// Puts `sequencer` in the place of the track of `which`.
    fn put_sequencer(&mut self, which: Instrument, sequencer: Sequencer)
        requires
            sequencer@.wf(),
            sequencer@.tempo == old(self)@.tempo,
            sequencer@.plays(which),
        ensures
            final(self)@ == old(self)@.with_track(which, sequencer@),
    {
        proof {
            use_type_invariant(&*self);
        }
        match which {
            Instrument::Kick => {
                self.kick_sequencer = sequencer;
            },
            Instrument::Snare => {
                self.snare_sequencer = sequencer;
            },
            Instrument::Hat => {
                self.hat_sequencer = sequencer;
            },
        }
    }

    /// Sets the default sound of the kick: the sound of its normal steps
    /// from their next resolution on.
    pub fn update_kick(
        &mut self,
        freq: i32,
        pitch: i32,
        wave_str: &str,
        decay: i32,
        punch: i32,
        volume: i32,
    )
        ensures
            final(self)@ == (AudioState {
                kick: old(self)@.kick.with_default(
                    SoundParams::Kick(
                        KickParams {
                            freq,
                            pitch,
                            wave: waveform_named(wave_str@),
                            decay,
                            punch,
                            volume,
                        },
                    ),
                ),
                ..old(self)@
            }),
            final(self)@.wf(),
    {
        let wave = wave_string_to_osc(wave_str);
        let kick = KickParams { freq, pitch, wave, decay, punch, volume };
        let mut sequencer: Sequencer = self.get_sequencer(Instrument::Kick);
        sequencer.update_default(SoundParams::Kick(kick));
        self.put_sequencer(Instrument::Kick, sequencer);
        proof {
            use_type_invariant(&*self);
        }
    }

    /// Sets the default sound of the snare.
    pub fn update_snare(&mut self, freq: i32, blend: i32, decay: i32, punch: i32, volume: i32)
        ensures
            final(self)@ == (AudioState {
                snare: old(self)@.snare.with_default(
                    SoundParams::Snare(SnareParams { freq, blend, decay, punch, volume }),
                ),
                ..old(self)@
            }),
            final(self)@.wf(),
    {
        let snare = SnareParams { freq, blend, decay, punch, volume };
        let mut sequencer: Sequencer = self.get_sequencer(Instrument::Snare);
        sequencer.update_default(SoundParams::Snare(snare));
        self.put_sequencer(Instrument::Snare, sequencer);
        proof {
            use_type_invariant(&*self);
        }
    }

    /// Sets the default sound of the hi-hat.
    pub fn update_hat(&mut self, freq: i32, decay: i32, punch: i32, volume: i32)
        ensures
            final(self)@ == (AudioState {
                hat: old(self)@.hat.with_default(
                    SoundParams::Hat(HatParams { freq, decay, punch, volume }),
                ),
                ..old(self)@
            }),
            final(self)@.wf(),
    {
        let hat = HatParams { freq, decay, punch, volume };
        let mut sequencer: Sequencer = self.get_sequencer(Instrument::Hat);
        sequencer.update_default(SoundParams::Hat(hat));
        self.put_sequencer(Instrument::Hat, sequencer);
        proof {
            use_type_invariant(&*self);
        }
    }

    /// Starts all tracks at `now`.
    pub fn start(&mut self, now: u64)
        ensures
            final(self)@ == old(self)@.started(now as int),
            final(self)@.wf(),
    {
        let mut kick: Sequencer = self.get_sequencer(Instrument::Kick);
        let mut snare: Sequencer = self.get_sequencer(Instrument::Snare);
        let mut hat: Sequencer = self.get_sequencer(Instrument::Hat);
        kick.play(now);
        snare.play(now);
        hat.play(now);
        self.put_sequencer(Instrument::Kick, kick);
        self.put_sequencer(Instrument::Snare, snare);
        self.put_sequencer(Instrument::Hat, hat);
        proof {
            use_type_invariant(&*self);
        }
    }

    /// Stops all tracks.
    pub fn stop(&mut self)
        ensures
            final(self)@ == old(self)@.stopped(),
            final(self)@.wf(),
    {
        let mut kick: Sequencer = self.get_sequencer(Instrument::Kick);
        let mut snare: Sequencer = self.get_sequencer(Instrument::Snare);
        let mut hat: Sequencer = self.get_sequencer(Instrument::Hat);
        kick.stop();
        snare.stop();
        hat.stop();
        self.put_sequencer(Instrument::Kick, kick);
        self.put_sequencer(Instrument::Snare, snare);
        self.put_sequencer(Instrument::Hat, hat);
        proof {
            use_type_invariant(&*self);
        }
    }

    /// One tick of the host's timer: every track resolves what is due
    /// before `now` plus the lookahead window. The events of each track carry
    /// sounds of that track's instrument only.
    pub fn schedule(&mut self, now: u64) -> (scheduled: Scheduled)
        requires
            now + SCHEDULE_INTERVAL <= MAX_HORIZON,
        ensures
            final(self)@ == old(self)@.scheduled(now as int),
            final(self)@.wf(),
            resolutions_of(scheduled.kick@, old(self)@.kick, old(self)@.horizon(now as int)),
            resolutions_of(scheduled.snare@, old(self)@.snare, old(self)@.horizon(now as int)),
            resolutions_of(scheduled.hat@, old(self)@.hat, old(self)@.horizon(now as int)),
            forall|k: int|
                0 <= k < scheduled.kick@.len() ==> ((#[trigger] scheduled.kick@[k]).params
                    matches Some(params) ==> params is Kick),
            forall|k: int|
                0 <= k < scheduled.snare@.len() ==> ((#[trigger] scheduled.snare@[k]).params
                    matches Some(params) ==> params is Snare),
            forall|k: int|
                0 <= k < scheduled.hat@.len() ==> ((#[trigger] scheduled.hat@[k]).params
                    matches Some(params) ==> params is Hat),
    {
        proof {
            use_type_invariant(&*self);
        }
        let interval: u64 = self.schedule_interval;
        let mut kick: Sequencer = self.get_sequencer(Instrument::Kick);
        let mut snare: Sequencer = self.get_sequencer(Instrument::Snare);
        let mut hat: Sequencer = self.get_sequencer(Instrument::Hat);
        let kick_events: Vec<StepEvent> = kick.schedule_sounds(now, interval);
        let snare_events: Vec<StepEvent> = snare.schedule_sounds(now, interval);
        let hat_events: Vec<StepEvent> = hat.schedule_sounds(now, interval);
        self.put_sequencer(Instrument::Kick, kick);
        self.put_sequencer(Instrument::Snare, snare);
        self.put_sequencer(Instrument::Hat, hat);
        proof {
            use_type_invariant(&*self);
            assert forall|k: int| 0 <= k < kick_events@.len() implies ((
            #[trigger] kick_events@[k]).params matches Some(params) ==> params is Kick) by {
                assert(kick_events@[k]@ == old(self)@.kick.firing(k));
            }
            assert forall|k: int| 0 <= k < snare_events@.len() implies ((
            #[trigger] snare_events@[k]).params matches Some(params) ==> params is Snare) by {
                assert(snare_events@[k]@ == old(self)@.snare.firing(k));
            }
            assert forall|k: int| 0 <= k < hat_events@.len() implies ((
            #[trigger] hat_events@[k]).params matches Some(params) ==> params is Hat) by {
                assert(hat_events@[k]@ == old(self)@.hat.firing(k));
            }
        }
        Scheduled { kick: kick_events, snare: snare_events, hat: hat_events }
    }

    /// The step of the track named `seq_name` that is audible at `now`. The
    /// track remembers the answer.
    pub fn get_steps(&mut self, seq_name: &str, now: u64) -> (step: i8)
        ensures
            step == old(self)@.track(instrument_named(seq_name@)).current_step(now as int),
            final(self)@ == old(self)@.with_track(
                instrument_named(seq_name@),
                old(self)@.track(instrument_named(seq_name@)).queried(now as int),
            ),
            final(self)@.wf(),
            0 <= step < old(self)@.track(instrument_named(seq_name@)).steps,
    {
        let which: Instrument = Instrument::from_name(seq_name);
        let mut sequencer: Sequencer = self.get_sequencer(which);
        let step: i8 = get_sequencer_steps(&mut sequencer, now);
        self.put_sequencer(which, sequencer);
        proof {
            use_type_invariant(&*self);
        }
        step
    }

    /// Changes the active length of the track named `seq_name`. A length
    /// outside `1..=16` is refused.
    pub fn update_sequencer_length(&mut self, seq_name: &str, length: i8) -> (done: Result<
        (),
        SequencerError,
    >)
        ensures
            valid_steps(length as int) ==> done is Ok && final(self)@ == old(self)@.with_track(
                instrument_named(seq_name@),
                old(self)@.track(instrument_named(seq_name@)).with_length(length as int),
            ),
            !valid_steps(length as int) ==> done == Err::<(), SequencerError>(
                SequencerError::TrackLength,
            ) && final(self)@ == old(self)@,
            final(self)@.wf(),
    {
        proof {
            use_type_invariant(&*self);
        }
        let which: Instrument = Instrument::from_name(seq_name);
        let mut sequencer: Sequencer = self.get_sequencer(which);
        let done: Result<(), SequencerError> = sequencer.set_length(length);
        if done.is_ok() {
            self.put_sequencer(which, sequencer);
        }
        proof {
            use_type_invariant(&*self);
        }
        done
    }

    /// Changes the offset of the track named `seq_name`.
    pub fn update_offset(&mut self, seq_name: &str, offset: i64)
        ensures
            final(self)@ == old(self)@.with_track(
                instrument_named(seq_name@),
                old(self)@.track(instrument_named(seq_name@)).with_offset(offset as int),
            ),
            final(self)@.wf(),
    {
        let which: Instrument = Instrument::from_name(seq_name);
        let mut sequencer: Sequencer = self.get_sequencer(which);
        sequencer.set_offset(offset);
        self.put_sequencer(which, sequencer);
        proof {
            use_type_invariant(&*self);
        }
    }

    /// Changes the tempo of all tracks at once. A tempo of zero is refused.
    pub fn update_tempo(&mut self, tempo: u32) -> (done: Result<(), SequencerError>)
        ensures
            valid_tempo(tempo as int) ==> done is Ok && final(self)@ == old(self)@.with_tempo(
                tempo as int,
            ),
            !valid_tempo(tempo as int) ==> done == Err::<(), SequencerError>(SequencerError::Tempo)
                && final(self)@ == old(self)@,
            final(self)@.wf(),
    {
        proof {
            use_type_invariant(&*self);
        }
        if tempo == 0 {
            return Err(SequencerError::Tempo);
        }
        let mut kick: Sequencer = self.get_sequencer(Instrument::Kick);
        let mut snare: Sequencer = self.get_sequencer(Instrument::Snare);
        let mut hat: Sequencer = self.get_sequencer(Instrument::Hat);
        let _ = kick.set_tempo(tempo);
        let _ = snare.set_tempo(tempo);
        let _ = hat.set_tempo(tempo);
        *self = Audio {
            schedule_interval: self.schedule_interval,
            kick_sequencer: kick,
            snare_sequencer: snare,
            hat_sequencer: hat,
            tempo,
        };
        Ok(())
    }

    /// Rewrites the pattern of one track from sixteen step descriptions.
    fn update_track_steps(&mut self, which: Instrument, steps: &[StepValues]) -> (done: Result<
        (),
        SequencerError,
    >)
        requires
            forall|i: int|
                0 <= i < steps@.len() ==> (#[trigger] steps@[i]).params.instrument() == which,
        ensures
            steps@.len() == PATTERN_SLOTS ==> done is Ok && final(self)@ == old(self)@.with_track(
                which,
                old(self)@.track(which).edited(steps@),
            ),
            steps@.len() != PATTERN_SLOTS ==> done == Err::<(), SequencerError>(
                SequencerError::PatternLength,
            ) && final(self)@ == old(self)@,
            final(self)@.wf(),
    {
        proof {
            use_type_invariant(&*self);
        }
        let mut sequencer: Sequencer = self.get_sequencer(which);
        let done: Result<(), SequencerError> = sequencer.update_steps(steps);
        if done.is_ok() {
            proof {
                crate::track::lemma_edited_plays(old(self)@.track(which), steps@, which);
            }
            self.put_sequencer(which, sequencer);
        }
        proof {
            use_type_invariant(&*self);
        }
        done
    }

    /// Rewrites the kick pattern from an editor's step descriptions.
    ///
    /// Each step of type `"trigger"` becomes a normal step and makes its
    /// values the default sound of the kick, the last such step having the
    /// last word. Each of type `"lock_trigger"` becomes a step locked to its
    /// values. Any other type leaves the step empty. A list that does not
    /// have exactly sixteen steps is refused, and nothing changes.
    pub fn update_kick_steps(&mut self, steps: &[KickValues]) -> (done: Result<(), SequencerError>)
        ensures
            steps@.len() == PATTERN_SLOTS ==> done is Ok && final(self)@ == (AudioState {
                kick: old(self)@.kick.edited(kick_steps(steps@)),
                ..old(self)@
            }),
            steps@.len() != PATTERN_SLOTS ==> done == Err::<(), SequencerError>(
                SequencerError::PatternLength,
            ) && final(self)@ == old(self)@,
            final(self)@.wf(),
    {
        proof {
            use_type_invariant(&*self);
        }
        if steps.len() != PATTERN_SLOTS {
            return Err(SequencerError::PatternLength);
        }
        let mut taken: Vec<StepValues> = Vec::new();
        let mut i: usize = 0;
        while i < steps.len()
            invariant
                i <= steps@.len(),
                taken@.len() == i,
                forall|j: int| 0 <= j < i ==> taken@[j] == steps@[j].spec_step(),
            decreases steps@.len() - i,
        {
            taken.push(steps[i].step());
            i += 1;
        }
        proof {
            assert(taken@ =~= kick_steps(steps@));
        }
        self.update_track_steps(Instrument::Kick, taken.as_slice())
    }

    /// Rewrites the snare pattern from an editor's step descriptions, as
    /// [`Audio::update_kick_steps`] does for the kick.
    pub fn update_snare_steps(&mut self, steps: &[SnareValues]) -> (done: Result<
        (),
        SequencerError,
    >)
        ensures
            steps@.len() == PATTERN_SLOTS ==> done is Ok && final(self)@ == (AudioState {
                snare: old(self)@.snare.edited(snare_steps(steps@)),
                ..old(self)@
            }),
            steps@.len() != PATTERN_SLOTS ==> done == Err::<(), SequencerError>(
                SequencerError::PatternLength,
            ) && final(self)@ == old(self)@,
            final(self)@.wf(),
    {
        proof {
            use_type_invariant(&*self);
        }
        if steps.len() != PATTERN_SLOTS {
            return Err(SequencerError::PatternLength);
        }
        let mut taken: Vec<StepValues> = Vec::new();
        let mut i: usize = 0;
        while i < steps.len()
            invariant
                i <= steps@.len(),
                taken@.len() == i,
                forall|j: int| 0 <= j < i ==> taken@[j] == steps@[j].spec_step(),
            decreases steps@.len() - i,
        {
            taken.push(steps[i].step());
            i += 1;
        }
        proof {
            assert(taken@ =~= snare_steps(steps@));
        }
        self.update_track_steps(Instrument::Snare, taken.as_slice())
    }

    /// Rewrites the hi-hat pattern from an editor's step descriptions, as
    /// [`Audio::update_kick_steps`] does for the kick.
    pub fn update_hat_steps(&mut self, steps: &[HatValues]) -> (done: Result<(), SequencerError>)
        ensures
            steps@.len() == PATTERN_SLOTS ==> done is Ok && final(self)@ == (AudioState {
                hat: old(self)@.hat.edited(hat_steps(steps@)),
                ..old(self)@
            }),
            steps@.len() != PATTERN_SLOTS ==> done == Err::<(), SequencerError>(
                SequencerError::PatternLength,
            ) && final(self)@ == old(self)@,
            final(self)@.wf(),
    {
        proof {
            use_type_invariant(&*self);
        }
        if steps.len() != PATTERN_SLOTS {
            return Err(SequencerError::PatternLength);
        }
        let mut taken: Vec<StepValues> = Vec::new();
        let mut i: usize = 0;
        while i < steps.len()
            invariant
                i <= steps@.len(),
                taken@.len() == i,
                forall|j: int| 0 <= j < i ==> taken@[j] == steps@[j].spec_step(),
            decreases steps@.len() - i,
        {
            taken.push(steps[i].step());
            i += 1;
        }
        proof {
            assert(taken@ =~= hat_steps(steps@));
        }
        self.update_track_steps(Instrument::Hat, taken.as_slice())
    }
}

} // verus!
