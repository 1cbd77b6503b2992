use sdf_render::batch::PrimitiveBatch;
use sdf_render::fixed::{HALF, ONE};
use sdf_render::record::PrimitiveRecord;
use sdf_render::schedule::{
    advance, animation_delta, LoopAction, LoopEvent, RenderLoop, FRAME_PERIOD_NANOS, TIME_STEP,
};

const WHITE: [u32; 4] = [ONE, ONE, ONE, ONE];
const BLACK: [u32; 4] = [0, 0, 0, ONE];
const H: i32 = HALF as i32;

fn sample_batch() -> PrimitiveBatch {
    PrimitiveBatch::create(vec![
        PrimitiveRecord::circle([100, 100], 100, WHITE, BLACK, 5_000_000),
        PrimitiveRecord::rectangle([400, 400], [300, 300], WHITE, BLACK, 20_000_000, [0; 4]),
        PrimitiveRecord::text([400, 100], [600, 600], BLACK, 37),
    ])
}

#[test]
fn the_timer_runs_at_sixty_hertz() {
    assert_eq!(FRAME_PERIOD_NANOS, 16_666_667);
    assert_eq!(TIME_STEP, 2_000);
}

#[test]
fn time_advances_by_one_step_and_wraps() {
    assert_eq!(advance(-H), -498_000);
    assert_eq!(advance(0), 2_000);
    assert_eq!(advance(496_000), 498_000);
    assert_eq!(advance(498_000), H);
    assert_eq!(advance(H), -H);
    assert_eq!(advance(499_999), -H);
    assert_eq!(advance(498_001), -H);
    let mut t = -H;
    for _ in 0..500 {
        t = advance(t);
    }
    assert_eq!(t, H);
    assert_eq!(advance(t), -H);
}

#[test]
fn the_delta_is_ten_times_the_time_rounded() {
    assert_eq!(animation_delta(-H), -5);
    assert_eq!(animation_delta(H), 5);
    assert_eq!(animation_delta(0), 0);
    assert_eq!(animation_delta(49_999), 0);
    assert_eq!(animation_delta(50_000), 1);
    assert_eq!(animation_delta(-49_999), 0);
    assert_eq!(animation_delta(-50_000), -1);
    assert_eq!(animation_delta(149_999), 1);
    assert_eq!(animation_delta(150_000), 2);
    assert_eq!(animation_delta(-498_000), -5);
    assert_eq!(animation_delta(-450_000), -5);
    assert_eq!(animation_delta(-449_999), -4);
    assert_eq!(animation_delta(449_999), 4);
    assert_eq!(animation_delta(450_000), 5);
    for t in (-H..=H).step_by(1_237) {
        assert_eq!(animation_delta(t) as f64, (t as f64 / 1e6 * 10.0).round());
    }
}

#[test]
fn a_new_loop_starts_at_minus_one_half() {
    let state = RenderLoop::new(2);
    assert_eq!(state.time(), -H);
    assert_eq!(state.animated(), 2);
}

#[test]
fn a_close_request_ends_the_loop() {
    let mut state = RenderLoop::new(2);
    let mut batch = sample_batch();
    let before = batch.device_records().clone();
    assert_eq!(state.step(&mut batch, LoopEvent::CloseRequested), LoopAction::Exit);
    assert_eq!(state.time(), -H);
    assert_eq!(batch.device_records(), &before);
    assert_eq!(batch.get(2).unwrap().dimensions, [600, 600]);
}

#[test]
fn other_events_are_ignored() {
    let mut state = RenderLoop::new(2);
    let mut batch = sample_batch();
    batch.mutable_ref(0).expand_dimensions(1);
    let before = batch.device_records().clone();
    assert_eq!(state.step(&mut batch, LoopEvent::Other), LoopAction::Wait);
    assert_eq!(state.time(), -H);
    assert_eq!(state.animated(), 2);
    // not even a pending edit is pushed
    assert_eq!(batch.device_records(), &before);
    assert_eq!(batch.get(0).unwrap().dimensions, [101, 101]);
}

#[test]
fn a_tick_animates_pushes_and_draws() {
    let mut state = RenderLoop::new(2);
    let mut batch = sample_batch();
    let before = batch.device_records().clone();
    assert_eq!(state.step(&mut batch, LoopEvent::TimerElapsed), LoopAction::Draw);
    assert_eq!(state.time(), -498_000);
    assert_eq!(batch.len(), 3);
    assert_eq!(batch.get(0), Some(before[0]));
    assert_eq!(batch.get(1), Some(before[1]));
    assert_eq!(batch.get(2).unwrap().dimensions, [595, 595]);
    assert_eq!(batch.get(2).unwrap().kind_and_payload, [2, 37]);
    assert_eq!(batch.device_records()[2].dimensions, [595, 595]);
    assert_eq!(batch.device_records()[0], before[0]);
    assert_eq!(batch.device_records()[1], before[1]);
}

#[test]
fn the_start_of_the_loop_counts_as_a_tick() {
    let mut state = RenderLoop::new(0);
    let mut batch = sample_batch();
    assert_eq!(state.step(&mut batch, LoopEvent::Started), LoopAction::Draw);
    assert_eq!(state.time(), -498_000);
    assert_eq!(batch.device_records()[0].dimensions, [95, 95]);
    assert_eq!(batch.device_records()[2].dimensions, [600, 600]);
}

#[test]
fn a_tick_pushes_pending_edits_too() {
    let mut state = RenderLoop::new(2);
    let mut batch = sample_batch();
    batch.mutable_ref(0).expand_dimensions(1);
    state.step(&mut batch, LoopEvent::TimerElapsed);
    assert_eq!(batch.device_records()[0].dimensions, [101, 101]);
}

#[test]
fn a_loop_without_its_primitive_still_draws() {
    let mut state = RenderLoop::new(3);
    let mut batch = sample_batch();
    let before = batch.device_records().clone();
    assert_eq!(state.step(&mut batch, LoopEvent::TimerElapsed), LoopAction::Draw);
    assert_eq!(state.time(), -498_000);
    assert_eq!(batch.device_records(), &before);
    let mut empty = PrimitiveBatch::create(Vec::new());
    assert_eq!(state.step(&mut empty, LoopEvent::TimerElapsed), LoopAction::Draw);
    assert_eq!(empty.len(), 0);
}

#[test]
fn one_period_of_the_animation() {
    let mut state = RenderLoop::new(2);
    let mut batch = sample_batch();
    let mut expected: i64 = 600;
    let mut t: i32 = -H;
    for _ in 0..501 {
        assert_eq!(state.step(&mut batch, LoopEvent::TimerElapsed), LoopAction::Draw);
        t = if t + 2_000 > H { -H } else { t + 2_000 };
        assert_eq!(state.time(), t);
        let delta = (t as f64 / 1e6 * 10.0).round() as i64;
        expected = (expected + delta).clamp(0, 65_535);
        assert_eq!(batch.device_records()[2].dimensions, [expected as u16, expected as u16]);
    }
    assert_eq!(state.time(), -H);
    // the shrinking half of the period runs the glyph down to nothing, the
    // growing half brings it to 630, and the wrap takes 5 off again
    assert_eq!(batch.device_records()[2].dimensions, [625, 625]);
}
