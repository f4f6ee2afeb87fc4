//! Standing still, waiting for the first key.

use super::run::Running;
use super::{RedHatBoyContext, RedHatBoyState, RedHatBoyStateMachine};
use crate::engine::Point;
use vstd::prelude::*;
use vstd::std_specs::convert::FromSpecImpl;

verus! {

pub const STARTING_POINT: i16 = -20;

pub const IDLE_FRAMES: u8 = 29;

#[derive(Copy, Clone, Debug, PartialEq, Eq, Structural)]
pub struct Idle;

impl RedHatBoyState<Idle> {
    pub fn new() -> (state: Self)
        ensures
            state == (RedHatBoyState { context: RedHatBoyContext::initial(), _state: Idle }),
    {
        RedHatBoyState {
            context: RedHatBoyContext {
                frame: 0,
                position: Point { x: STARTING_POINT, y: super::FLOOR },
                velocity: Point { x: 0, y: 0 },
            },
            _state: Idle,
        }
    }

    pub fn frame_name(&self) -> (name: &str)
        ensures
            name@ == "Idle"@,
    {
        "Idle"
    }

    pub fn run(self) -> (state: RedHatBoyState<Running>)
        requires
            self.context.can_run_right(),
        ensures
            state == (RedHatBoyState {
                context: self.context.frame_reset().running_right(),
                _state: Running,
            }),
    {
        RedHatBoyState { context: self.context.reset_frame().run_right(), _state: Running {  } }
    }

    pub fn update(self) -> (state: Self)
        requires
            self.context.can_update(),
        ensures
            state == (RedHatBoyState { context: self.context.updated(IDLE_FRAMES), _state: Idle }),
    {
        let mut state = self;
        state.update_context(IDLE_FRAMES);
        state
    }
}

impl From<RedHatBoyState<Idle>> for RedHatBoyStateMachine {
    fn from(state: RedHatBoyState<Idle>) -> (machine: Self) {
        RedHatBoyStateMachine::Idle(state)
    }
}

impl FromSpecImpl<RedHatBoyState<Idle>> for RedHatBoyStateMachine {
    open spec fn obeys_from_spec() -> bool {
        true
    }

    open spec fn from_spec(state: RedHatBoyState<Idle>) -> Self {
        RedHatBoyStateMachine::Idle(state)
    }
}

} // verus!
