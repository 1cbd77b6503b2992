//! The decisions of the render loop.
//!
//! The loop is driven by a timer with a fixed period. Whatever runs it hands
//! each event to `RenderLoop::step` and carries out the action that comes
//! back. A close request ends the loop. A tick of the timer advances the
//! animation by one step, resizes one designated primitive by the rounded
//! tenfold of the animation scalar, pushes the batch to the device and asks for
//! a frame. Every other event is ignored.

use crate::batch::PrimitiveBatch;
use crate::fixed::HALF;
use crate::record::{is_expansion_of, PrimitiveRecord};
use vstd::prelude::*;

verus! {

/// Period of the timer in nanoseconds: one sixtieth of a second.
pub const FRAME_PERIOD_NANOS: u64 = 16_666_667;

/// Advance of the animation scalar per tick (`0.002`), fixed-point.
pub const TIME_STEP: i32 = 2_000;

/// What the windowing system reports to the loop.
#[derive(Clone, Copy, Debug, PartialEq, Eq, Structural)]
pub enum LoopEvent {
    /// The user asked to close the window.
    CloseRequested,
    /// The loop has just started.
    Started,
    /// The time the loop waited for has come.
    TimerElapsed,
    /// Anything else: input, a resize, a wake-up before its time.
    Other,
}

/// What the loop has to do next.
#[derive(Clone, Copy, Debug, PartialEq, Eq, Structural)]
pub enum LoopAction {
    /// Leave the loop.
    Exit,
    /// Wait one more period; draw nothing.
    Wait,
    /// Wait one more period, and draw and present the batch.
    Draw,
}

/// The animation scalar one tick after `time`: one step further, wrapped to
/// `-0.5` as soon as it would exceed `0.5`.
pub open spec fn advance_spec(time: int) -> int {
    if time + TIME_STEP > HALF {
        -(HALF as int)
    } else {
        time + TIME_STEP
    }
}

/// The whole number nearest to ten times `time`, halves rounding away from zero.
pub open spec fn animation_delta_spec(time: int) -> int {
    if time >= 0 {
        (time + 50_000) / 100_000
    } else {
        -((-time + 50_000) / 100_000)
    }
}

/// The state of the render loop: the animation scalar and the index of the
/// primitive that it resizes.
#[derive(Clone, Copy, Debug)]
pub struct RenderLoop {
    time: i32,
    animated: usize,
}

/// The animation scalar one tick after `time`.
pub fn advance(time: i32) -> (next: i32)
    requires
        -(HALF as int) <= time <= HALF,
    ensures
        next == advance_spec(time as int),
        -(HALF as int) <= next <= HALF,
{
    if time + TIME_STEP > 500_000 {
        -500_000
    } else {
        time + TIME_STEP
    }
}

/// The change of size, in pixels, that goes with the animation scalar `time`.
pub fn animation_delta(time: i32) -> (delta: i16)
    requires
        -(HALF as int) <= time <= HALF,
    ensures
        delta == animation_delta_spec(time as int),
        -5 <= delta <= 5,
{
    if time >= 0 {
        ((time + 50_000) / 100_000) as i16
    } else {
        let magnitude: i32 = (-time + 50_000) / 100_000;
        (-magnitude) as i16
    }
}

impl RenderLoop {
    #[verifier::type_invariant]
    spec fn in_range(self) -> bool {
        -(HALF as int) <= self.time <= HALF
    }

    /// The animation scalar, fixed-point, between `-0.5` and `0.5`.
    pub closed spec fn time_spec(self) -> int {
        self.time as int
    }

    /// Index of the primitive that the animation resizes.
    pub closed spec fn animated_spec(self) -> int {
        self.animated as int
    }

    /// A loop at the start of its animation, at `-0.5`, that resizes the
    /// primitive with the given index.
    pub fn new(animated: usize) -> (state: RenderLoop)
        ensures
            state.time_spec() == -(HALF as int),
            state.animated_spec() == animated,
    {
        RenderLoop { time: -500_000, animated }
    }

    /// The animation scalar, fixed-point.
    pub fn time(&self) -> (t: i32)
        ensures
            t == self.time_spec(),
            -(HALF as int) <= t <= HALF,
    {
        proof {
            use_type_invariant(self);
        }
        self.time
    }

    /// Index of the primitive that the animation resizes.
    pub fn animated(&self) -> (i: usize)
        ensures
            i == self.animated_spec(),
    {
        self.animated
    }

    /// The batch after one tick: the designated record resized by `delta`,
    /// all others and the order as before, and the device in step with it.
    /// A batch too short to hold the designated record only gets pushed.
    pub open spec fn ticked(
        self,
        before: PrimitiveBatch,
        after: PrimitiveBatch,
        delta: int,
    ) -> bool {
        &&& after@.len() == before@.len()
        &&& forall|i: int|
            0 <= i < before@.len() && i != self.animated_spec() ==> #[trigger] after@[i]
                == before@[i]
        &&& self.animated_spec() < before@.len() ==> is_expansion_of(
            after@[self.animated_spec()],
            before@[self.animated_spec()],
            delta,
        )
        &&& after.in_sync()
    }

    /// Decides what one event means for the loop and the batch.
    pub fn step(&mut self, batch: &mut PrimitiveBatch, event: LoopEvent) -> (action: LoopAction)
        ensures
            final(self).animated_spec() == old(self).animated_spec(),
            event == LoopEvent::CloseRequested ==> action == LoopAction::Exit,
            event == LoopEvent::Other ==> action == LoopAction::Wait,
            event == LoopEvent::Started || event == LoopEvent::TimerElapsed ==> {
                &&& action == LoopAction::Draw
                &&& final(self).time_spec() == advance_spec(old(self).time_spec())
                &&& old(self).ticked(
                    *old(batch),
                    *final(batch),
                    animation_delta_spec(final(self).time_spec()),
                )
            },
            event == LoopEvent::CloseRequested || event == LoopEvent::Other ==> {
                &&& final(self).time_spec() == old(self).time_spec()
                &&& final(batch)@ == old(batch)@
                &&& final(batch).device_view() == old(batch).device_view()
            },
    {
        match event {
            LoopEvent::CloseRequested => LoopAction::Exit,
            LoopEvent::Other => LoopAction::Wait,
            LoopEvent::Started | LoopEvent::TimerElapsed => {
                proof {
                    use_type_invariant(&*self);
                }
                let next: i32 = advance(self.time);
                self.time = next;
                let delta: i16 = animation_delta(next);
                if self.animated < batch.len() {
                    let record: &mut PrimitiveRecord = batch.mutable_ref(self.animated);
                    record.expand_dimensions(delta);
                }
                batch.sync();
                LoopAction::Draw
            },
        }
    }
}

} // verus!
