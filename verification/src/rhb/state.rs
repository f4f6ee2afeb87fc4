//! The boy's state machine: six typed states, the events that move him
//! between them, and the motion context every state carries.

use crate::engine::Point;
use vstd::prelude::*;

pub mod fall;
pub mod idle;
pub mod jump;
pub mod over;
pub mod run;
pub mod slid;

verus! {

pub const RUNNING_SPEED: i16 = 5;

pub const GRAVITY: i16 = 1;

/// Height of the ground line; the boy never sinks below it.
pub const FLOOR: i16 = 479;

pub const PLAYER_HEIGHT: i16 = crate::game::HEIGHT - FLOOR;

pub const TERMINAL_VELOCITY: i16 = 20;

pub enum Event {
    Run,
    Slide,
    Update,
    Jump,
    KnockOut,
    Land(i16),
}

#[derive(Copy, Clone, Debug, PartialEq, Eq)]
pub enum RedHatBoyStateMachine {
    Idle(RedHatBoyState<idle::Idle>),
    Running(RedHatBoyState<run::Running>),
    Sliding(RedHatBoyState<slid::Sliding>),
    Jumping(RedHatBoyState<jump::Jumping>),
    Falling(RedHatBoyState<fall::Falling>),
    KnockedOut(RedHatBoyState<over::KnockedOut>),
}

impl Default for RedHatBoyStateMachine {
    fn default() -> (machine: Self)
        ensures
            machine == RedHatBoyStateMachine::Idle(
                RedHatBoyState { context: RedHatBoyContext::initial(), _state: idle::Idle },
            ),
    {
        RedHatBoyStateMachine::Idle(RedHatBoyState::new())
    }
}

impl RedHatBoyStateMachine {
    /// The motion context of whichever state the machine is in.
    pub open spec fn spec_context(self) -> RedHatBoyContext {
        match self {
            RedHatBoyStateMachine::Idle(state) => state.context,
            RedHatBoyStateMachine::Running(state) => state.context,
            RedHatBoyStateMachine::Sliding(state) => state.context,
            RedHatBoyStateMachine::Jumping(state) => state.context,
            RedHatBoyStateMachine::Falling(state) => state.context,
            RedHatBoyStateMachine::KnockedOut(state) => state.context,
        }
    }

    /// Whether `event` can be applied without leaving the range of the
    /// 16-bit coordinates. Events that the current state ignores always can.
    pub open spec fn accepts(self, event: Event) -> bool {
        match (self, event) {
            (RedHatBoyStateMachine::Idle(state), Event::Run) => state.context.can_run_right(),
            (RedHatBoyStateMachine::Running(state), Event::Land(position)) => can_stand_on(
                position,
            ),
            (RedHatBoyStateMachine::Jumping(state), Event::Land(position)) => can_stand_on(
                position,
            ),
            (RedHatBoyStateMachine::Sliding(state), Event::Land(position)) => can_stand_on(
                position,
            ),
            (RedHatBoyStateMachine::KnockedOut(_), Event::Update) => true,
            (_, Event::Update) => self.spec_context().can_update(),
            _ => true,
        }
    }

    /// The transition table.
    pub open spec fn next(self, event: Event) -> RedHatBoyStateMachine {
        match (self, event) {
            (RedHatBoyStateMachine::Idle(state), Event::Run) => RedHatBoyStateMachine::Running(
                RedHatBoyState {
                    context: state.context.frame_reset().running_right(),
                    _state: run::Running,
                },
            ),
            (RedHatBoyStateMachine::Running(state), Event::Jump) => RedHatBoyStateMachine::Jumping(
                RedHatBoyState {
                    context: state.context.with_vertical_velocity(run::JUMP_SPEED).frame_reset(),
                    _state: jump::Jumping,
                },
            ),
            (
                RedHatBoyStateMachine::Running(state),
                Event::Slide,
            ) => RedHatBoyStateMachine::Sliding(
                RedHatBoyState { context: state.context.frame_reset(), _state: slid::Sliding },
            ),
            (
                RedHatBoyStateMachine::Running(state),
                Event::KnockOut,
            ) => RedHatBoyStateMachine::Falling(
                RedHatBoyState { context: state.context, _state: fall::Falling },
            ),
            (
                RedHatBoyStateMachine::Running(state),
                Event::Land(position),
            ) => RedHatBoyStateMachine::Running(
                RedHatBoyState { context: state.context.standing_on(position), _state: run::Running },
            ),
            (
                RedHatBoyStateMachine::Jumping(state),
                Event::Land(position),
            ) => RedHatBoyStateMachine::Running(
                RedHatBoyState {
                    context: state.context.frame_reset().standing_on(position),
                    _state: run::Running,
                },
            ),
            (
                RedHatBoyStateMachine::Jumping(state),
                Event::KnockOut,
            ) => RedHatBoyStateMachine::Falling(
                RedHatBoyState {
                    context: state.context.frame_reset().stopped(),
                    _state: fall::Falling,
                },
            ),
            (
                RedHatBoyStateMachine::Sliding(state),
                Event::KnockOut,
            ) => RedHatBoyStateMachine::Falling(
                RedHatBoyState {
                    context: state.context.frame_reset().stopped(),
                    _state: fall::Falling,
                },
            ),
            (
                RedHatBoyStateMachine::Sliding(state),
                Event::Land(position),
            ) => RedHatBoyStateMachine::Sliding(
                RedHatBoyState {
                    context: state.context.standing_on(position),
                    _state: slid::Sliding,
                },
            ),
            (RedHatBoyStateMachine::Idle(state), Event::Update) => RedHatBoyStateMachine::Idle(
                RedHatBoyState {
                    context: state.context.updated(idle::IDLE_FRAMES),
                    _state: idle::Idle,
                },
            ),
            (
                RedHatBoyStateMachine::Running(state),
                Event::Update,
            ) => RedHatBoyStateMachine::Running(
                RedHatBoyState {
                    context: state.context.updated(run::RUNNING_FRAMES),
                    _state: run::Running,
                },
            ),
            (RedHatBoyStateMachine::Jumping(state), Event::Update) => {
                let context = state.context.updated(jump::JUMPING_FRAMES);
                if context.position.y >= FLOOR {
                    RedHatBoyStateMachine::Running(
                        RedHatBoyState {
                            context: context.frame_reset().standing_on(crate::game::HEIGHT),
                            _state: run::Running,
                        },
                    )
                } else {
                    RedHatBoyStateMachine::Jumping(RedHatBoyState { context, _state: jump::Jumping })
                }
            },
            (RedHatBoyStateMachine::Sliding(state), Event::Update) => {
                let context = state.context.updated(slid::SLIDING_FRAMES);
                if context.frame >= slid::SLIDING_FRAMES {
                    RedHatBoyStateMachine::Running(
                        RedHatBoyState { context: context.frame_reset(), _state: run::Running },
                    )
                } else {
                    RedHatBoyStateMachine::Sliding(RedHatBoyState { context, _state: slid::Sliding })
                }
            },
            (RedHatBoyStateMachine::Falling(state), Event::Update) => {
                let context = state.context.updated(fall::FALLING_FRAMES);
                if context.frame >= fall::FALLING_FRAMES {
                    RedHatBoyStateMachine::KnockedOut(
                        RedHatBoyState { context, _state: over::KnockedOut },
                    )
                } else {
                    RedHatBoyStateMachine::Falling(RedHatBoyState { context, _state: fall::Falling })
                }
            },
            _ => self,
        }
    }

    /// The name of the sprite sequence that draws the current state.
    pub open spec fn sprite_name(self) -> Seq<char> {
        match self {
            RedHatBoyStateMachine::Idle(_) => "Idle"@,
            RedHatBoyStateMachine::Running(_) => "Run"@,
            RedHatBoyStateMachine::Sliding(_) => "Slide"@,
            RedHatBoyStateMachine::Jumping(_) => "Jump"@,
            RedHatBoyStateMachine::Falling(_) => "Dead"@,
            RedHatBoyStateMachine::KnockedOut(_) => "Dead"@,
        }
    }

    pub fn transition(self, event: Event) -> (machine: Self)
        requires
            self.accepts(event),
        ensures
            machine == self.next(event),
    {
        match (self, event) {
            (RedHatBoyStateMachine::Idle(state), Event::Run) => RedHatBoyStateMachine::from(
                state.run(),
            ),
            (RedHatBoyStateMachine::Running(state), Event::Jump) => RedHatBoyStateMachine::from(
                state.jump(),
            ),
            (RedHatBoyStateMachine::Running(state), Event::Slide) => RedHatBoyStateMachine::from(
                state.slide(),
            ),
            (RedHatBoyStateMachine::Running(state), Event::KnockOut) => RedHatBoyStateMachine::from(
                state.knock_out(),
            ),
            (
                RedHatBoyStateMachine::Running(state),
                Event::Land(position),
            ) => RedHatBoyStateMachine::from(state.land_on(position)),
            (
                RedHatBoyStateMachine::Jumping(state),
                Event::Land(position),
            ) => RedHatBoyStateMachine::from(state.land_on(position)),
            (RedHatBoyStateMachine::Jumping(state), Event::KnockOut) => RedHatBoyStateMachine::from(
                state.knock_out(),
            ),
            (RedHatBoyStateMachine::Sliding(state), Event::KnockOut) => RedHatBoyStateMachine::from(
                state.knock_out(),
            ),
            (
                RedHatBoyStateMachine::Sliding(state),
                Event::Land(position),
            ) => RedHatBoyStateMachine::from(state.land_on(position)),
            (RedHatBoyStateMachine::Idle(state), Event::Update) => RedHatBoyStateMachine::from(
                state.update(),
            ),
            (RedHatBoyStateMachine::Running(state), Event::Update) => RedHatBoyStateMachine::from(
                state.update(),
            ),
            (RedHatBoyStateMachine::Jumping(state), Event::Update) => RedHatBoyStateMachine::from(
                state.update(),
            ),
            (RedHatBoyStateMachine::Sliding(state), Event::Update) => RedHatBoyStateMachine::from(
                state.update(),
            ),
            (RedHatBoyStateMachine::Falling(state), Event::Update) => RedHatBoyStateMachine::from(
                state.update(),
            ),
            (machine, _) => machine,
        }
    }

    pub fn frame_name(&self) -> (name: &str)
        ensures
            name@ == self.sprite_name(),
    {
        match self {
            RedHatBoyStateMachine::Idle(state) => state.frame_name(),
            RedHatBoyStateMachine::Running(state) => state.frame_name(),
            RedHatBoyStateMachine::Sliding(state) => state.frame_name(),
            RedHatBoyStateMachine::Jumping(state) => state.frame_name(),
            RedHatBoyStateMachine::Falling(state) => state.frame_name(),
            RedHatBoyStateMachine::KnockedOut(state) => state.frame_name(),
        }
    }

    pub fn context(&self) -> (context: &RedHatBoyContext)
        ensures
            *context == self.spec_context(),
    {
        match self {
            RedHatBoyStateMachine::Idle(state) => state.context(),
            RedHatBoyStateMachine::Running(state) => state.context(),
            RedHatBoyStateMachine::Sliding(state) => state.context(),
            RedHatBoyStateMachine::Jumping(state) => state.context(),
            RedHatBoyStateMachine::Falling(state) => state.context(),
            RedHatBoyStateMachine::KnockedOut(state) => state.context(),
        }
    }
}

/// A state of the boy: the motion context together with a marker type that
/// selects which moves are available.
#[derive(Copy, Clone, Debug, PartialEq, Eq)]
pub struct RedHatBoyState<S> {
    pub context: RedHatBoyContext,
    pub _state: S,
}

impl<S> RedHatBoyState<S> {
    pub fn context(&self) -> (context: &RedHatBoyContext)
        ensures
            *context == self.context,
    {
        &self.context
    }

    pub fn update_context(&mut self, frames: u8)
        requires
            old(self).context.can_update(),
        ensures
            final(self).context == old(self).context.updated(frames),
            final(self)._state == old(self)._state,
    {
        self.context = self.context.update(frames);
    }
}

/// Where the boy is, how fast he moves, and which animation frame is showing.
#[derive(Copy, Clone, Debug, PartialEq, Eq, Structural)]
pub struct RedHatBoyContext {
    pub frame: u8,
    pub position: Point,
    pub velocity: Point,
}

/// Whether the boy's top edge stays on the canvas grid when his feet are put
/// at height `position`.
pub open spec fn can_stand_on(position: i16) -> bool {
    position - PLAYER_HEIGHT >= i16::MIN
}

impl RedHatBoyContext {
    /// The context a fresh boy starts with: at rest on the floor, just left of
    /// the canvas.
    pub open spec fn initial() -> RedHatBoyContext {
        RedHatBoyContext {
            frame: 0,
            position: Point { x: idle::STARTING_POINT, y: FLOOR },
            velocity: Point { x: 0, y: 0 },
        }
    }

    /// The vertical velocity after one tick of gravity: two units below
    /// terminal velocity, one unit from there on.
    pub open spec fn falling_speed(self) -> int {
        if self.velocity.y < TERMINAL_VELOCITY {
            self.velocity.y + 2 * GRAVITY
        } else {
            self.velocity.y + GRAVITY
        }
    }

    /// Whether one tick keeps velocity and height within 16 bits.
    pub open spec fn can_update(self) -> bool {
        &&& self.falling_speed() <= i16::MAX
        &&& i16::MIN <= self.position.y + self.falling_speed() <= i16::MAX
    }

    /// One tick: gravity acts, the animation advances and wraps after
    /// `frame_count`, and the boy falls no further than the floor.
    pub open spec fn updated(self, frame_count: u8) -> RedHatBoyContext {
        let height = self.position.y + self.falling_speed();
        RedHatBoyContext {
            frame: if self.frame < frame_count {
                (self.frame + 1) as u8
            } else {
                0
            },
            position: Point {
                x: self.position.x,
                y: if height > FLOOR {
                    FLOOR
                } else {
                    height as i16
                },
            },
            velocity: Point { x: self.velocity.x, y: self.falling_speed() as i16 },
        }
    }

    pub open spec fn standing_on(self, position: i16) -> RedHatBoyContext {
        RedHatBoyContext {
            position: Point { x: self.position.x, y: (position - PLAYER_HEIGHT) as i16 },
            ..self
        }
    }

    pub open spec fn frame_reset(self) -> RedHatBoyContext {
        RedHatBoyContext { frame: 0, ..self }
    }

    pub open spec fn can_run_right(self) -> bool {
        self.velocity.x + RUNNING_SPEED <= i16::MAX
    }

    pub open spec fn running_right(self) -> RedHatBoyContext {
        RedHatBoyContext {
            velocity: Point { x: (self.velocity.x + RUNNING_SPEED) as i16, y: self.velocity.y },
            ..self
        }
    }

    pub open spec fn with_vertical_velocity(self, y: i16) -> RedHatBoyContext {
        RedHatBoyContext { velocity: Point { x: self.velocity.x, y }, ..self }
    }

    pub open spec fn stopped(self) -> RedHatBoyContext {
        RedHatBoyContext { velocity: Point { x: 0, y: self.velocity.y }, ..self }
    }

    pub fn update(self, frame_count: u8) -> (context: Self)
        requires
            self.can_update(),
        ensures
            context == self.updated(frame_count),
    {
        let mut context = self;
        if context.velocity.y < TERMINAL_VELOCITY {
            context.velocity.y += GRAVITY;
        }
        context.velocity.y += GRAVITY;

        if context.frame < frame_count {
            context.frame += 1;
        } else {
            context.frame = 0;
        }

        context.position.y += context.velocity.y;

        if context.position.y > FLOOR {
            context.position.y = FLOOR;
        }

        context
    }

    pub fn set_on(self, position: i16) -> (context: Self)
        requires
            can_stand_on(position),
        ensures
            context == self.standing_on(position),
    {
        let mut context = self;
        let position = position - PLAYER_HEIGHT;
        context.position.y = position;
        context
    }

    pub fn reset_frame(self) -> (context: Self)
        ensures
            context == self.frame_reset(),
    {
        let mut context = self;
        context.frame = 0;
        context
    }

    pub fn run_right(self) -> (context: Self)
        requires
            self.can_run_right(),
        ensures
            context == self.running_right(),
    {
        let mut context = self;
        context.velocity.x += RUNNING_SPEED;
        context
    }

    pub fn set_vertical_velocity(self, y: i16) -> (context: Self)
        ensures
            context == self.with_vertical_velocity(y),
    {
        let mut context = self;
        context.velocity.y = y;
        context
    }

    pub fn stop(self) -> (context: Self)
        ensures
            context == self.stopped(),
    {
        let mut context = self;
        context.velocity.x = 0;
        context
    }
}

} // verus!
