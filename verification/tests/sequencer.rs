use drum_machine::error::SequencerError;
use drum_machine::sequencer::{
    get_sequencer_steps, Sequencer, StepEvent, StepType, StepValues, Trigger,
};
use drum_machine::sounds::hat::HatParams;
use drum_machine::sounds::kick::KickParams;
use drum_machine::sounds::{SoundParams, Waveform};
use drum_machine::timing::{LEAD_IN, MAX_HORIZON};

const MS: u64 = 1_000_000;

fn kick(freq: i32, punch: i32) -> SoundParams {
    SoundParams::Kick(KickParams {
        freq,
        pitch: 1_000,
        wave: Waveform::Sine,
        decay: 100,
        punch,
        volume: 700,
    })
}

fn pattern_of(slots: &[(usize, Trigger)]) -> [Trigger; 16] {
    let mut pattern = [Trigger::Empty; 16];
    for (slot, trigger) in slots {
        pattern[*slot] = *trigger;
    }
    pattern
}

fn steps_of(events: &[StepEvent]) -> Vec<usize> {
    events.iter().map(|event| event.step).collect()
}

fn times_of(events: &[StepEvent]) -> Vec<u64> {
    events.iter().map(|event| event.time).collect()
}

fn at_120() -> Sequencer {
    Sequencer::new(120_000, kick(40_000, 0))
}

#[test]
fn a_new_sequencer_is_at_rest() {
    let sequencer = Sequencer::new(90_000, kick(40_000, 0));
    assert_eq!(sequencer.steps(), 16);
    assert_eq!(sequencer.tempo(), 90_000);
    assert_eq!(sequencer.step_delta(), 166_666_666);
    assert_eq!(sequencer.offset(), 0);
    assert_eq!(sequencer.next_step_time(), 0);
    assert_eq!(sequencer.default_params(), kick(40_000, 0));
    assert_eq!(sequencer.sequence(), [Trigger::Empty; 16]);
}

#[test]
fn locked_and_normal_steps_over_three_ticks() {
    let locked = kick(40_000, 500);
    let default = kick(40_000, 0);
    let mut sequencer = Sequencer::new(120_000, default);
    assert_eq!(sequencer.step_delta(), 125 * MS);
    sequencer.set_pattern(pattern_of(&[(0, Trigger::Locked(locked)), (4, Trigger::Normal)]));
    sequencer.play(0);
    let first = sequencer.schedule_sounds(500 * MS, 50 * MS);
    let second = sequencer.schedule_sounds(500 * MS, 50 * MS);
    let third = sequencer.schedule_sounds(500 * MS, 50 * MS);
    assert_eq!(
        first,
        vec![
            StepEvent { step: 0, time: 0, offset: 0, params: Some(locked) },
            StepEvent { step: 1, time: 125 * MS, offset: 0, params: None },
            StepEvent { step: 2, time: 250 * MS, offset: 0, params: None },
            StepEvent { step: 3, time: 375 * MS, offset: 0, params: None },
            StepEvent { step: 4, time: 500 * MS, offset: 0, params: Some(default) },
        ]
    );
    assert!(second.is_empty());
    assert!(third.is_empty());
    assert_eq!(sequencer.next_step_time(), 625 * MS);
}

#[test]
fn a_normal_step_takes_the_default_of_the_moment_it_is_resolved() {
    let locked = kick(40_000, 500);
    let early = kick(40_000, 0);
    let late = kick(77_000, 0);
    let mut sequencer = Sequencer::new(120_000, early);
    sequencer.set_pattern(pattern_of(&[(0, Trigger::Locked(locked)), (4, Trigger::Normal)]));
    sequencer.play(0);
    let first = sequencer.schedule_sounds(250 * MS, 50 * MS);
    sequencer.update_default(late);
    let second = sequencer.schedule_sounds(500 * MS, 50 * MS);
    assert_eq!(steps_of(&first), vec![0, 1, 2]);
    assert_eq!(first[0].params, Some(locked));
    assert_eq!(steps_of(&second), vec![3, 4]);
    assert_eq!(second[1].params, Some(late));
    assert_eq!(second[1].time, 500 * MS);
}

#[test]
fn a_locked_step_ignores_later_defaults() {
    let mut sequencer = at_120();
    sequencer.set_pattern(pattern_of(&[(3, Trigger::Locked(kick(200_000, 0)))]));
    sequencer.update_default(kick(9_000_000, 0));
    sequencer.play(0);
    let events = sequencer.schedule_sounds(0, 500 * MS);
    assert_eq!(steps_of(&events), vec![0, 1, 2, 3]);
    assert_eq!(events[3].params, Some(kick(200_000, 0)));
    sequencer.update_default(kick(1, 1));
    let round = sequencer.schedule_sounds(2_000 * MS, 500 * MS);
    assert_eq!(round[15].step, 3);
    assert_eq!(round[15].params, Some(kick(200_000, 0)));
    assert_eq!(sequencer.sequence()[3], Trigger::Locked(kick(200_000, 0)));
}

#[test]
fn a_locked_step_for_another_instrument_is_handed_on_as_it_is() {
    let foreign = SoundParams::Hat(HatParams { freq: 1, decay: 2, punch: 3, volume: 4 });
    let mut sequencer = at_120();
    sequencer.set_pattern(pattern_of(&[(0, Trigger::Locked(foreign))]));
    sequencer.play(0);
    let events = sequencer.schedule_sounds(0, 1);
    assert_eq!(events, vec![StepEvent { step: 0, time: 0, offset: 0, params: Some(foreign) }]);
}

#[test]
fn a_normal_step_follows_the_live_default() {
    let mut sequencer = at_120();
    assert_eq!(sequencer.set_length(4), Ok(()));
    sequencer.set_pattern(pattern_of(&[(0, Trigger::Normal)]));
    sequencer.play(0);
    let first = sequencer.schedule_sounds(0, 1);
    assert_eq!(first.len(), 1);
    assert_eq!(first[0].params, Some(kick(40_000, 0)));
    sequencer.update_default(kick(880_000, 0));
    let second = sequencer.schedule_sounds(2_000 * MS, 1);
    assert_eq!(steps_of(&second), vec![1, 2, 3, 0]);
    assert_eq!(second[3].params, Some(kick(880_000, 0)));
    assert_eq!(second[3].time, 2_000 * MS);
}

#[test]
fn stop_then_play_starts_over_wherever_the_track_stopped() {
    let pattern = pattern_of(&[(0, Trigger::Normal), (1, Trigger::Locked(kick(5, 5)))]);
    let mut near = at_120();
    near.set_pattern(pattern);
    near.play(0);
    assert_eq!(near.schedule_sounds(0, 300 * MS).len(), 3);
    let mut far = at_120();
    far.set_pattern(pattern);
    far.play(77 * MS);
    assert_eq!(far.schedule_sounds(3_000 * MS, 40 * MS).len(), 24);
    near.stop();
    far.stop();
    near.play(10_000 * MS);
    far.play(10_000 * MS);
    assert_eq!(near.next_step_time(), 10_000 * MS);
    let from_near = near.schedule_sounds(10_000 * MS, 300 * MS);
    let from_far = far.schedule_sounds(10_000 * MS, 300 * MS);
    assert_eq!(steps_of(&from_near), vec![0, 1, 2]);
    assert_eq!(times_of(&from_near), vec![10_000 * MS, 10_125 * MS, 10_250 * MS]);
    assert_eq!(from_near, from_far);
    assert_eq!(get_sequencer_steps(&mut near, 10_130 * MS), 1);
    assert_eq!(get_sequencer_steps(&mut far, 10_130 * MS), 1);
}

#[test]
fn stop_keeps_tempo_pattern_and_the_time_of_the_next_step() {
    let pattern = pattern_of(&[(2, Trigger::Normal)]);
    let mut sequencer = at_120();
    sequencer.set_pattern(pattern);
    sequencer.set_offset(-5);
    sequencer.play(0);
    sequencer.schedule_sounds(0, 300 * MS);
    sequencer.stop();
    assert_eq!(sequencer.next_step_time(), 375 * MS);
    assert_eq!(sequencer.tempo(), 120_000);
    assert_eq!(sequencer.steps(), 16);
    assert_eq!(sequencer.offset(), -5);
    assert_eq!(sequencer.sequence(), pattern);
    let events = sequencer.schedule_sounds(375 * MS, 1);
    assert_eq!(steps_of(&events), vec![0]);
    assert_eq!(times_of(&events), vec![375 * MS]);
}

#[test]
fn play_moves_the_time_and_not_the_cursor() {
    let mut sequencer = at_120();
    sequencer.play(0);
    assert_eq!(sequencer.schedule_sounds(0, 300 * MS).len(), 3);
    sequencer.play(8_000 * MS);
    let events = sequencer.schedule_sounds(8_000 * MS, 130 * MS);
    assert_eq!(steps_of(&events), vec![3, 4]);
    assert_eq!(times_of(&events), vec![8_000 * MS, 8_125 * MS]);
}

#[test]
fn the_query_answers_with_the_step_that_the_clock_has_reached() {
    let mut sequencer = at_120();
    sequencer.play(0);
    let events = sequencer.schedule_sounds(0, 300 * MS);
    assert_eq!(steps_of(&events), vec![0, 1, 2]);
    assert_eq!(get_sequencer_steps(&mut sequencer, 130 * MS), 1);
    assert_eq!(get_sequencer_steps(&mut sequencer, 0), 0);
    assert_eq!(get_sequencer_steps(&mut sequencer, 125 * MS - 1), 0);
    assert_eq!(get_sequencer_steps(&mut sequencer, 125 * MS), 1);
    assert_eq!(get_sequencer_steps(&mut sequencer, 250 * MS), 2);
    assert_eq!(get_sequencer_steps(&mut sequencer, 9_000 * MS), 2);
}

#[test]
fn the_query_repeats_its_last_answer_where_nothing_is_heard() {
    let mut sequencer = at_120();
    assert_eq!(get_sequencer_steps(&mut sequencer, 0), 0);
    sequencer.play(1_000 * MS);
    sequencer.schedule_sounds(1_000 * MS, 300 * MS);
    assert_eq!(get_sequencer_steps(&mut sequencer, 500 * MS), 0);
    assert_eq!(get_sequencer_steps(&mut sequencer, 1_250 * MS), 2);
    assert_eq!(get_sequencer_steps(&mut sequencer, 500 * MS), 2);
    sequencer.stop();
    assert_eq!(get_sequencer_steps(&mut sequencer, 5_000 * MS), 0);
}

#[test]
fn the_query_walks_back_round_the_end_of_the_pattern() {
    let mut sequencer = at_120();
    assert_eq!(sequencer.set_length(4), Ok(()));
    let delta = sequencer.step_delta();
    assert_eq!(delta, 500 * MS);
    sequencer.play(0);
    let events = sequencer.schedule_sounds(5 * delta, 1);
    assert_eq!(steps_of(&events), vec![0, 1, 2, 3, 0, 1]);
    assert_eq!(get_sequencer_steps(&mut sequencer, 4 * delta + delta / 2), 0);
    assert_eq!(get_sequencer_steps(&mut sequencer, 3 * delta + delta / 2), 3);
    assert_eq!(get_sequencer_steps(&mut sequencer, 2 * delta + delta / 2), 2);
    assert_eq!(get_sequencer_steps(&mut sequencer, delta + delta / 2), 2);
    assert_eq!(get_sequencer_steps(&mut sequencer, 5 * delta), 1);
}

#[test]
fn track_lengths_outside_one_to_sixteen_are_refused() {
    let mut sequencer = at_120();
    for length in [0i8, 17, -1, i8::MIN, i8::MAX] {
        assert_eq!(sequencer.set_length(length), Err(SequencerError::TrackLength));
        assert_eq!(sequencer.steps(), 16);
        assert_eq!(sequencer.step_delta(), 125 * MS);
    }
    assert_eq!(sequencer.set_length(1), Ok(()));
    assert_eq!(sequencer.steps(), 1);
    assert_eq!(sequencer.step_delta(), 2_000 * MS);
    assert_eq!(sequencer.set_length(16), Ok(()));
    assert_eq!(sequencer.steps(), 16);
    assert_eq!(sequencer.step_delta(), 125 * MS);
}

#[test]
fn a_tempo_of_zero_is_refused() {
    let mut sequencer = at_120();
    assert_eq!(sequencer.set_tempo(0), Err(SequencerError::Tempo));
    assert_eq!(sequencer.tempo(), 120_000);
    assert_eq!(sequencer.step_delta(), 125 * MS);
    assert_eq!(sequencer.set_tempo(1), Ok(()));
    assert_eq!(sequencer.step_delta(), 15_000_000_000_000);
    assert_eq!(sequencer.set_tempo(u32::MAX), Ok(()));
    assert_eq!(sequencer.step_delta(), 3_492);
}

#[test]
fn a_new_tempo_holds_from_the_next_step_on() {
    let mut sequencer = at_120();
    sequencer.play(0);
    let before = sequencer.schedule_sounds(0, 130 * MS);
    assert_eq!(times_of(&before), vec![0, 125 * MS]);
    assert_eq!(sequencer.set_tempo(60_000), Ok(()));
    assert_eq!(sequencer.step_delta(), 250 * MS);
    assert_eq!(sequencer.next_step_time(), 250 * MS);
    let after = sequencer.schedule_sounds(500 * MS, 50 * MS);
    assert_eq!(steps_of(&after), vec![2, 3]);
    assert_eq!(times_of(&after), vec![250 * MS, 500 * MS]);
    assert_eq!(sequencer.next_step_time(), 750 * MS);
    assert_eq!(get_sequencer_steps(&mut sequencer, 130 * MS), 1);
}

#[test]
fn a_shorter_length_sends_a_cursor_outside_it_back_to_the_start() {
    let mut sequencer = at_120();
    sequencer.play(0);
    assert_eq!(sequencer.schedule_sounds(0, 1_250 * MS).len(), 10);
    assert_eq!(get_sequencer_steps(&mut sequencer, 1_200 * MS), 9);
    assert_eq!(sequencer.set_length(8), Ok(()));
    assert_eq!(sequencer.step_delta(), 250 * MS);
    assert_eq!(sequencer.next_step_time(), 1_250 * MS);
    let events = sequencer.schedule_sounds(1_250 * MS, 300 * MS);
    assert_eq!(steps_of(&events), vec![0, 1]);
    assert_eq!(times_of(&events), vec![1_250 * MS, 1_500 * MS]);
}

#[test]
fn a_shorter_length_keeps_a_cursor_inside_it() {
    let mut sequencer = at_120();
    sequencer.play(0);
    assert_eq!(sequencer.schedule_sounds(0, 300 * MS).len(), 3);
    assert_eq!(get_sequencer_steps(&mut sequencer, 1_000 * MS), 2);
    assert_eq!(sequencer.set_length(8), Ok(()));
    let events = sequencer.schedule_sounds(375 * MS, 1_500 * MS);
    assert_eq!(steps_of(&events), vec![3, 4, 5, 6, 7, 0]);
    assert_eq!(events[0].time, 375 * MS);
    assert_eq!(events[5].time, 1_625 * MS);
    assert_eq!(get_sequencer_steps(&mut sequencer, 374 * MS), 2);
}

#[test]
fn a_track_of_one_step_repeats_it() {
    let mut sequencer = at_120();
    assert_eq!(sequencer.set_length(1), Ok(()));
    sequencer.set_pattern(pattern_of(&[(0, Trigger::Normal), (1, Trigger::Normal)]));
    sequencer.play(0);
    let events = sequencer.schedule_sounds(4_000 * MS, 1);
    assert_eq!(steps_of(&events), vec![0, 0, 0]);
    assert_eq!(times_of(&events), vec![0, 2_000 * MS, 4_000 * MS]);
    assert_eq!(get_sequencer_steps(&mut sequencer, 3_000 * MS), 0);
}

#[test]
fn slots_beyond_the_active_length_are_never_resolved() {
    let mut sequencer = at_120();
    sequencer.set_pattern([Trigger::Normal; 16]);
    assert_eq!(sequencer.set_length(5), Ok(()));
    sequencer.play(0);
    let events = sequencer.schedule_sounds(60_000 * MS, 1);
    assert!(events.len() > 100);
    assert!(events.iter().all(|event| event.step < 5));
    for (k, event) in events.iter().enumerate() {
        assert_eq!(event.step, k % 5);
        assert_eq!(event.time, k as u64 * sequencer.step_delta());
    }
}

#[test]
fn the_horizon_itself_is_not_scheduled() {
    let mut sequencer = at_120();
    sequencer.play(0);
    assert_eq!(times_of(&sequencer.schedule_sounds(0, 125 * MS)), vec![0]);
    assert_eq!(times_of(&sequencer.schedule_sounds(0, 125 * MS + 1)), vec![125 * MS]);
    assert!(sequencer.schedule_sounds(0, 0).is_empty());
    assert!(sequencer.schedule_sounds(250 * MS, 0).is_empty());
    assert_eq!(times_of(&sequencer.schedule_sounds(250 * MS, 1)), vec![250 * MS]);
}

#[test]
fn nothing_is_scheduled_before_the_time_of_the_next_step() {
    let mut sequencer = at_120();
    sequencer.play(1_000 * MS);
    assert!(sequencer.schedule_sounds(0, 50 * MS).is_empty());
    assert!(sequencer.schedule_sounds(950 * MS, 50 * MS).is_empty());
    assert_eq!(sequencer.next_step_time(), 1_000 * MS);
    assert_eq!(steps_of(&sequencer.schedule_sounds(951 * MS, 50 * MS)), vec![0]);
}

#[test]
fn a_late_tick_catches_up_without_skipping() {
    let mut sequencer = at_120();
    sequencer.set_pattern([Trigger::Normal; 16]);
    sequencer.play(0);
    let burst = sequencer.schedule_sounds(1_000 * MS, 50 * MS);
    assert_eq!(steps_of(&burst), vec![0, 1, 2, 3, 4, 5, 6, 7, 8]);
    assert_eq!(
        times_of(&burst),
        vec![
            0,
            125 * MS,
            250 * MS,
            375 * MS,
            500 * MS,
            625 * MS,
            750 * MS,
            875 * MS,
            1_000 * MS
        ]
    );
    assert_eq!(sequencer.next_step_time(), 1_125 * MS);
}

#[test]
fn irregular_ticks_resolve_what_one_tick_would() {
    let pattern = pattern_of(&[(0, Trigger::Normal), (5, Trigger::Locked(kick(1, 2)))]);
    let mut jittery = Sequencer::new(133_337, kick(40_000, 0));
    let mut steady = Sequencer::new(133_337, kick(40_000, 0));
    jittery.set_pattern(pattern);
    steady.set_pattern(pattern);
    jittery.play(3 * MS);
    steady.play(3 * MS);
    let mut gathered: Vec<StepEvent> = Vec::new();
    for now in [0u64, 17, 18, 61, 400, 399, 1_203, 1_204, 5_000, 4_000, 7_777] {
        gathered.extend(jittery.schedule_sounds(now * MS, 40 * MS));
    }
    let whole = steady.schedule_sounds(7_777 * MS, 40 * MS);
    assert_eq!(gathered, whole);
    assert_eq!(jittery.next_step_time(), steady.next_step_time());
    let delta = steady.step_delta();
    let span = 7_817 * MS - 3 * MS;
    assert!(whole.len() as u64 == span / delta || whole.len() as u64 == span / delta + 1);
    for (k, event) in whole.iter().enumerate() {
        assert_eq!(event.step, k % 16);
        assert_eq!(event.time, 3 * MS + k as u64 * delta);
    }
    assert_eq!(get_sequencer_steps(&mut jittery, 7_777 * MS), get_sequencer_steps(
        &mut steady,
        7_777 * MS
    ));
}

#[test]
fn the_number_of_steps_resolved_is_the_span_over_the_step_span_rounded_up() {
    let mut sequencer = at_120();
    sequencer.play(0);
    assert_eq!(sequencer.schedule_sounds(0, 1_000 * MS).len(), 8);
    let mut sequencer = at_120();
    sequencer.play(0);
    assert_eq!(sequencer.schedule_sounds(0, 1_000 * MS + 1).len(), 9);
    let mut sequencer = at_120();
    sequencer.play(0);
    assert_eq!(sequencer.schedule_sounds(0, 1).len(), 1);
}

#[test]
fn events_carry_the_offset_of_the_moment() {
    let mut sequencer = at_120();
    sequencer.set_offset(-30_000_000);
    sequencer.play(0);
    let first = sequencer.schedule_sounds(0, 130 * MS);
    sequencer.set_offset(12);
    let second = sequencer.schedule_sounds(0, 260 * MS);
    assert_eq!(first.iter().map(|event| event.offset).collect::<Vec<i64>>(), vec![
        -30_000_000,
        -30_000_000
    ]);
    assert_eq!(second.iter().map(|event| event.offset).collect::<Vec<i64>>(), vec![12]);
    assert_eq!(times_of(&second), vec![250 * MS]);
}

#[test]
fn a_voice_starts_a_lead_in_after_its_corrected_time() {
    let event = StepEvent { step: 0, time: 1_000, offset: -200, params: None };
    assert_eq!(event.start_time(), 50_000_800);
    let event = StepEvent { step: 0, time: 125 * MS, offset: 0, params: None };
    assert_eq!(event.start_time(), 175_000_000);
    assert_eq!(event.start_time(), (125 * MS + LEAD_IN) as i128);
    let early = StepEvent { step: 0, time: 0, offset: i64::MIN, params: None };
    assert_eq!(early.start_time(), i64::MIN as i128 + 50_000_000);
    let late = StepEvent { step: 0, time: u64::MAX, offset: i64::MAX, params: None };
    assert_eq!(late.start_time(), u64::MAX as i128 + i64::MAX as i128 + 50_000_000);
}

#[test]
fn scheduling_works_up_to_the_end_of_the_clock() {
    let mut sequencer = at_120();
    sequencer.play(MAX_HORIZON - 2 * 125 * MS);
    let events = sequencer.schedule_sounds(MAX_HORIZON - 40 * MS, 40 * MS);
    assert_eq!(
        times_of(&events),
        vec![MAX_HORIZON - 250 * MS, MAX_HORIZON - 125 * MS]
    );
    assert_eq!(sequencer.next_step_time(), MAX_HORIZON);
}

fn step(step_type: StepType, freq: i32) -> StepValues {
    StepValues { step_type, params: kick(freq, 0) }
}

#[test]
fn sixteen_steps_rewrite_the_pattern_and_the_default() {
    let mut sequencer = at_120();
    let mut steps = vec![step(StepType::Empty, 0); 16];
    steps[0] = step(StepType::Trigger, 100);
    steps[3] = step(StepType::LockTrigger, 300);
    steps[9] = step(StepType::Trigger, 900);
    steps[12] = step(StepType::LockTrigger, 1_200);
    assert_eq!(sequencer.update_steps(&steps), Ok(()));
    assert_eq!(
        sequencer.sequence(),
        pattern_of(&[
            (0, Trigger::Normal),
            (3, Trigger::Locked(kick(300, 0))),
            (9, Trigger::Normal),
            (12, Trigger::Locked(kick(1_200, 0))),
        ])
    );
    assert_eq!(sequencer.default_params(), kick(900, 0));
    sequencer.play(0);
    let events = sequencer.schedule_sounds(0, 2_000 * MS);
    assert_eq!(events[0].params, Some(kick(900, 0)));
    assert_eq!(events[1].params, None);
    assert_eq!(events[3].params, Some(kick(300, 0)));
    assert_eq!(events[9].params, Some(kick(900, 0)));
    assert_eq!(events[12].params, Some(kick(1_200, 0)));
}

#[test]
fn a_pattern_without_normal_steps_leaves_the_default_alone() {
    let mut sequencer = at_120();
    let mut steps = vec![step(StepType::Empty, 5); 16];
    steps[15] = step(StepType::LockTrigger, 6);
    assert_eq!(sequencer.update_steps(&steps), Ok(()));
    assert_eq!(sequencer.default_params(), kick(40_000, 0));
    assert_eq!(sequencer.sequence(), pattern_of(&[(15, Trigger::Locked(kick(6, 0)))]));
}

#[test]
fn a_pattern_of_the_wrong_length_is_refused_and_changes_nothing() {
    let before = pattern_of(&[(1, Trigger::Normal), (2, Trigger::Locked(kick(2, 2)))]);
    let mut sequencer = at_120();
    sequencer.set_pattern(before);
    for length in [0usize, 1, 15, 17, 32] {
        let steps = vec![step(StepType::Trigger, 123); length];
        assert_eq!(sequencer.update_steps(&steps), Err(SequencerError::PatternLength));
        assert_eq!(sequencer.sequence(), before);
        assert_eq!(sequencer.default_params(), kick(40_000, 0));
    }
}
