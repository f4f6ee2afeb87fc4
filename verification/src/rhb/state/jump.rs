//! In the air after a jump.

use super::fall::Falling;
use super::run::Running;
use super::{can_stand_on, RedHatBoyState, RedHatBoyStateMachine};
use crate::game::HEIGHT;
use vstd::prelude::*;
use vstd::std_specs::convert::FromSpecImpl;

verus! {

pub const JUMPING_FRAME_NAME: &'static str = "Jump";

pub const JUMPING_FRAMES: u8 = 35;

#[derive(Copy, Clone, Debug, PartialEq, Eq, Structural)]
pub struct Jumping;

impl RedHatBoyState<Jumping> {
    /// Where the jump stands once a tick has produced `context`.
    pub open spec fn after_update(context: super::RedHatBoyContext) -> JumpingEndState {
        if context.position.y >= super::FLOOR {
            JumpingEndState::Landing(
                RedHatBoyState {
                    context: context.frame_reset().standing_on(HEIGHT),
                    _state: Running,
                },
            )
        } else {
            JumpingEndState::Jumping(RedHatBoyState { context, _state: Jumping })
        }
    }

    pub fn frame_name(&self) -> (name: &str)
        ensures
            name@ == "Jump"@,
    {
        JUMPING_FRAME_NAME
    }

    /// One tick of the jump. Reaching the floor lands the boy on the bottom
    /// edge of the canvas and he runs on.
    pub fn update(self) -> (end: JumpingEndState)
        requires
            self.context.can_update(),
        ensures
            end == Self::after_update(self.context.updated(JUMPING_FRAMES)),
    {
        let mut state = self;
        state.update_context(JUMPING_FRAMES);

        if state.context.position.y >= super::FLOOR {
            JumpingEndState::Landing(state.land_on(HEIGHT))
        } else {
            JumpingEndState::Jumping(state)
        }
    }

    pub fn knock_out(self) -> (state: RedHatBoyState<Falling>)
        ensures
            state == (RedHatBoyState {
                context: self.context.frame_reset().stopped(),
                _state: Falling,
            }),
    {
        RedHatBoyState { context: self.context.reset_frame().stop(), _state: Falling {  } }
    }

    pub fn land_on(self, position: i16) -> (state: RedHatBoyState<Running>)
        requires
            can_stand_on(position),
        ensures
            state == (RedHatBoyState {
                context: self.context.frame_reset().standing_on(position),
                _state: Running,
            }),
    {
        RedHatBoyState { context: self.context.reset_frame().set_on(position), _state: Running }
    }
}

#[derive(Copy, Clone, Debug, PartialEq, Eq)]
pub enum JumpingEndState {
    Landing(RedHatBoyState<Running>),
    Jumping(RedHatBoyState<Jumping>),
}

impl From<RedHatBoyState<Jumping>> for RedHatBoyStateMachine {
    fn from(state: RedHatBoyState<Jumping>) -> (machine: Self) {
        RedHatBoyStateMachine::Jumping(state)
    }
}

impl FromSpecImpl<RedHatBoyState<Jumping>> for RedHatBoyStateMachine {
    open spec fn obeys_from_spec() -> bool {
        true
    }

    open spec fn from_spec(state: RedHatBoyState<Jumping>) -> Self {
        RedHatBoyStateMachine::Jumping(state)
    }
}

impl From<JumpingEndState> for RedHatBoyStateMachine {
    fn from(state: JumpingEndState) -> (machine: Self) {
        match state {
            JumpingEndState::Jumping(jumping) => RedHatBoyStateMachine::from(jumping),
            JumpingEndState::Landing(landing) => RedHatBoyStateMachine::from(landing),
        }
    }
}

impl FromSpecImpl<JumpingEndState> for RedHatBoyStateMachine {
    open spec fn obeys_from_spec() -> bool {
        true
    }

    open spec fn from_spec(state: JumpingEndState) -> Self {
        match state {
            JumpingEndState::Jumping(jumping) => RedHatBoyStateMachine::Jumping(jumping),
            JumpingEndState::Landing(landing) => RedHatBoyStateMachine::Running(landing),
        }
    }
}

} // verus!
