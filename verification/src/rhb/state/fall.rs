//! Knocked over and falling to the ground.

use super::over::KnockedOut;
use super::{RedHatBoyState, RedHatBoyStateMachine};
use vstd::prelude::*;
use vstd::std_specs::convert::FromSpecImpl;

verus! {

pub const FALLING_FRAMES: u8 = 29;

#[derive(Copy, Clone, Debug, PartialEq, Eq, Structural)]
pub struct Falling;

impl RedHatBoyState<Falling> {
    /// Where the fall stands once a tick has produced `context`.
    pub open spec fn after_update(context: super::RedHatBoyContext) -> FallingEndState {
        if context.frame >= FALLING_FRAMES {
            FallingEndState::KnockedOut(RedHatBoyState { context, _state: KnockedOut })
        } else {
            FallingEndState::Falling(RedHatBoyState { context, _state: Falling })
        }
    }

    pub fn frame_name(&self) -> (name: &str)
        ensures
            name@ == "Dead"@,
    {
        "Dead"
    }

    pub fn knock_out(self) -> (state: RedHatBoyState<KnockedOut>)
        ensures
            state == (RedHatBoyState { context: self.context, _state: KnockedOut }),
    {
        RedHatBoyState { context: self.context, _state: KnockedOut {  } }
    }

    /// One tick of the fall. When the animation has played to its last frame
    /// the boy is knocked out.
    pub fn update(self) -> (end: FallingEndState)
        requires
            self.context.can_update(),
        ensures
            end == Self::after_update(self.context.updated(FALLING_FRAMES)),
    {
        let mut state = self;
        state.update_context(FALLING_FRAMES);
        if state.context.frame >= FALLING_FRAMES {
            FallingEndState::KnockedOut(state.knock_out())
        } else {
            FallingEndState::Falling(state)
        }
    }
}

#[derive(Copy, Clone, Debug, PartialEq, Eq)]
pub enum FallingEndState {
    KnockedOut(RedHatBoyState<KnockedOut>),
    Falling(RedHatBoyState<Falling>),
}

impl From<FallingEndState> for RedHatBoyStateMachine {
    fn from(state: FallingEndState) -> (machine: Self) {
        match state {
            FallingEndState::Falling(falling) => RedHatBoyStateMachine::from(falling),
            FallingEndState::KnockedOut(knocked_out) => RedHatBoyStateMachine::from(knocked_out),
        }
    }
}

impl FromSpecImpl<FallingEndState> for RedHatBoyStateMachine {
    open spec fn obeys_from_spec() -> bool {
        true
    }

    open spec fn from_spec(state: FallingEndState) -> Self {
        match state {
            FallingEndState::Falling(falling) => RedHatBoyStateMachine::Falling(falling),
            FallingEndState::KnockedOut(knocked_out) => RedHatBoyStateMachine::KnockedOut(
                knocked_out,
            ),
        }
    }
}

impl From<RedHatBoyState<Falling>> for RedHatBoyStateMachine {
    fn from(state: RedHatBoyState<Falling>) -> (machine: Self) {
        RedHatBoyStateMachine::Falling(state)
    }
}

impl FromSpecImpl<RedHatBoyState<Falling>> for RedHatBoyStateMachine {
    open spec fn obeys_from_spec() -> bool {
        true
    }

    open spec fn from_spec(state: RedHatBoyState<Falling>) -> Self {
        RedHatBoyStateMachine::Falling(state)
    }
}

} // verus!
