//! Running along the ground or along a platform.

use super::fall::Falling;
use super::jump::Jumping;
use super::slid::Sliding;
use super::{can_stand_on, RedHatBoyState, RedHatBoyStateMachine};
use vstd::prelude::*;
use vstd::std_specs::convert::FromSpecImpl;

verus! {

pub const RUN_FRAME_NAME: &'static str = "Run";

pub const RUNNING_FRAMES: u8 = 23;

pub const JUMP_SPEED: i16 = -35;

#[derive(Copy, Clone, Debug, PartialEq, Eq, Structural)]
pub struct Running;

impl RedHatBoyState<Running> {
    pub fn frame_name(&self) -> (name: &str)
        ensures
            name@ == "Run"@,
    {
        RUN_FRAME_NAME
    }

    pub fn update(self) -> (state: Self)
        requires
            self.context.can_update(),
        ensures
            state == (RedHatBoyState {
                context: self.context.updated(RUNNING_FRAMES),
                _state: Running,
            }),
    {
        let mut state = self;
        state.update_context(RUNNING_FRAMES);
        state
    }

    pub fn slide(self) -> (state: RedHatBoyState<Sliding>)
        ensures
            state == (RedHatBoyState { context: self.context.frame_reset(), _state: Sliding }),
    {
        RedHatBoyState { context: self.context.reset_frame(), _state: Sliding {  } }
    }

    pub fn jump(self) -> (state: RedHatBoyState<Jumping>)
        ensures
            state == (RedHatBoyState {
                context: self.context.with_vertical_velocity(JUMP_SPEED).frame_reset(),
                _state: Jumping,
            }),
    {
        RedHatBoyState {
            context: self.context.set_vertical_velocity(JUMP_SPEED).reset_frame(),
            _state: Jumping {  },
        }
    }

    pub fn knock_out(self) -> (state: RedHatBoyState<Falling>)
        ensures
            state == (RedHatBoyState { context: self.context, _state: Falling }),
    {
        RedHatBoyState { context: self.context, _state: Falling {  } }
    }

    pub fn land_on(self, position: i16) -> (state: RedHatBoyState<Running>)
        requires
            can_stand_on(position),
        ensures
            state == (RedHatBoyState {
                context: self.context.standing_on(position),
                _state: Running,
            }),
    {
        RedHatBoyState { context: self.context.set_on(position), _state: Running {  } }
    }
}

impl From<RedHatBoyState<Running>> for RedHatBoyStateMachine {
    fn from(state: RedHatBoyState<Running>) -> (machine: Self) {
        RedHatBoyStateMachine::Running(state)
    }
}

impl FromSpecImpl<RedHatBoyState<Running>> for RedHatBoyStateMachine {
    open spec fn obeys_from_spec() -> bool {
        true
    }

    open spec fn from_spec(state: RedHatBoyState<Running>) -> Self {
        RedHatBoyStateMachine::Running(state)
    }
}

} // verus!
