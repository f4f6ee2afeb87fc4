//! Lying on the ground: the game is over.

use super::{RedHatBoyState, RedHatBoyStateMachine};
use vstd::prelude::*;
use vstd::std_specs::convert::FromSpecImpl;

verus! {

pub const FALLING_FRAME_NAME: &'static str = "Dead";

#[derive(Copy, Clone, Debug, PartialEq, Eq, Structural)]
pub struct KnockedOut;

impl RedHatBoyState<KnockedOut> {
    pub fn frame_name(&self) -> (name: &str)
        ensures
            name@ == "Dead"@,
    {
        FALLING_FRAME_NAME
    }
}

impl From<RedHatBoyState<KnockedOut>> for RedHatBoyStateMachine {
    fn from(state: RedHatBoyState<KnockedOut>) -> (machine: Self) {
        RedHatBoyStateMachine::KnockedOut(state)
    }
}

impl FromSpecImpl<RedHatBoyState<KnockedOut>> for RedHatBoyStateMachine {
    open spec fn obeys_from_spec() -> bool {
        true
    }

    open spec fn from_spec(state: RedHatBoyState<KnockedOut>) -> Self {
        RedHatBoyStateMachine::KnockedOut(state)
    }
}

} // verus!
