//! Sliding under an obstacle.

use super::fall::Falling;
use super::run::Running;
use super::{can_stand_on, RedHatBoyState, RedHatBoyStateMachine};
use vstd::prelude::*;
use vstd::std_specs::convert::FromSpecImpl;

verus! {

pub const SLIDING_FRAMES: u8 = 14;

#[derive(Copy, Clone, Debug, PartialEq, Eq)]
pub enum SlidingEndState {
    Running(RedHatBoyState<Running>),
    Sliding(RedHatBoyState<Sliding>),
}

#[derive(Copy, Clone, Debug, PartialEq, Eq, Structural)]
pub struct Sliding;

impl RedHatBoyState<Sliding> {
    /// Where the slide stands once a tick has produced `context`.
    pub open spec fn after_update(context: super::RedHatBoyContext) -> SlidingEndState {
        if context.frame >= SLIDING_FRAMES {
            SlidingEndState::Running(
                RedHatBoyState { context: context.frame_reset(), _state: Running },
            )
        } else {
            SlidingEndState::Sliding(RedHatBoyState { context, _state: Sliding })
        }
    }

    pub fn frame_name(&self) -> (name: &str)
        ensures
            name@ == "Slide"@,
    {
        "Slide"
    }

    /// One tick of the slide. When the animation has played to its last frame
    /// the boy stands up and runs on.
    pub fn update(self) -> (end: SlidingEndState)
        requires
            self.context.can_update(),
        ensures
            end == Self::after_update(self.context.updated(SLIDING_FRAMES)),
    {
        let mut state = self;
        state.update_context(SLIDING_FRAMES);
        if state.context.frame >= SLIDING_FRAMES {
            SlidingEndState::Running(state.stand())
        } else {
            SlidingEndState::Sliding(state)
        }
    }

    pub fn stand(self) -> (state: RedHatBoyState<Running>)
        ensures
            state == (RedHatBoyState { context: self.context.frame_reset(), _state: Running }),
    {
        RedHatBoyState { context: self.context.reset_frame(), _state: Running }
    }

    pub fn land_on(self, position: i16) -> (state: RedHatBoyState<Sliding>)
        requires
            can_stand_on(position),
        ensures
            state == (RedHatBoyState {
                context: self.context.standing_on(position),
                _state: Sliding,
            }),
    {
        RedHatBoyState { context: self.context.set_on(position), _state: Sliding {  } }
    }

    pub fn knock_out(self) -> (state: RedHatBoyState<Falling>)
        ensures
            state == (RedHatBoyState {
                context: self.context.frame_reset().stopped(),
                _state: Falling,
            }),
    {
        RedHatBoyState { context: self.context.reset_frame().stop(), _state: Falling {  } }
    }
}

impl From<RedHatBoyState<Sliding>> for RedHatBoyStateMachine {
    fn from(state: RedHatBoyState<Sliding>) -> (machine: Self) {
        RedHatBoyStateMachine::Sliding(state)
    }
}

impl FromSpecImpl<RedHatBoyState<Sliding>> for RedHatBoyStateMachine {
    open spec fn obeys_from_spec() -> bool {
        true
    }

    open spec fn from_spec(state: RedHatBoyState<Sliding>) -> Self {
        RedHatBoyStateMachine::Sliding(state)
    }
}

impl From<SlidingEndState> for RedHatBoyStateMachine {
    fn from(end_state: SlidingEndState) -> (machine: Self) {
        match end_state {
            SlidingEndState::Running(running_state) => RedHatBoyStateMachine::from(running_state),
            SlidingEndState::Sliding(sliding_state) => RedHatBoyStateMachine::from(sliding_state),
        }
    }
}

impl FromSpecImpl<SlidingEndState> for RedHatBoyStateMachine {
    open spec fn obeys_from_spec() -> bool {
        true
    }

    open spec fn from_spec(end_state: SlidingEndState) -> Self {
        match end_state {
            SlidingEndState::Running(running_state) => RedHatBoyStateMachine::Running(
                running_state,
            ),
            SlidingEndState::Sliding(sliding_state) => RedHatBoyStateMachine::Sliding(
                sliding_state,
            ),
        }
    }
}

} // verus!
