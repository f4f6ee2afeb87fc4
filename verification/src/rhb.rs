//! The player character: a state machine together with the sprite sheet
//! that draws it.

use crate::engine::{lookup, Cell, Rect, Sheet};
use crate::decimal::{decimal, push_decimal};
use vstd::prelude::*;
use vstd::string::StringExecFns;

pub mod state;

verus! {

pub const X_OFFSET: i16 = 18;

pub const Y_OFFSET: i16 = 14;

pub const WIDTH_OFFSET: i16 = 28;

/// Each sprite of an animation is shown for this many frames.
pub const FRAMES_PER_SPRITE: u8 = 3;

/// The name of the sprite that shows a boy in state `machine`: the state's
/// name, then the sprite's number within the animation, counted from one.
pub open spec fn sprite_name_of(machine: state::RedHatBoyStateMachine) -> Seq<char> {
    machine.sprite_name() + seq![' ', '('] + decimal(
        (machine.spec_context().frame / FRAMES_PER_SPRITE + 1) as nat,
    ) + seq![')', '.', 'p', 'n', 'g']
}

/// The sprite that shows a boy in state `machine`, if `frames` hold it.
pub open spec fn sprite_of(
    frames: Seq<(String, Cell)>,
    machine: state::RedHatBoyStateMachine,
) -> Option<Cell> {
    lookup(frames, sprite_name_of(machine))
}

/// Whether the boy can be placed on the canvas: his sprite exists, and its
/// corner lies on the 16-bit grid.
pub open spec fn can_place_of(
    frames: Seq<(String, Cell)>,
    machine: state::RedHatBoyStateMachine,
) -> bool {
    let position = machine.spec_context().position;
    &&& sprite_of(frames, machine) matches Some(sprite)
    &&& i16::MIN <= position.x + sprite.sprite_source_size.x <= i16::MAX
    &&& i16::MIN <= position.y + sprite.sprite_source_size.y <= i16::MAX
}

/// Where the sprite is drawn.
pub open spec fn placed_of(
    frames: Seq<(String, Cell)>,
    machine: state::RedHatBoyStateMachine,
) -> Rect {
    let position = machine.spec_context().position;
    let sprite = sprite_of(frames, machine)->0;
    Rect {
        position: crate::engine::Point {
            x: (position.x + sprite.sprite_source_size.x) as i16,
            y: (position.y + sprite.sprite_source_size.y) as i16,
        },
        width: sprite.frame.w,
        height: sprite.frame.h,
    }
}

/// Whether the boy's body can be told from his sprite without leaving the
/// 16-bit grid.
pub open spec fn can_collide_of(
    frames: Seq<(String, Cell)>,
    machine: state::RedHatBoyStateMachine,
) -> bool {
    let placed = placed_of(frames, machine);
    &&& can_place_of(frames, machine)
    &&& placed.position.x + X_OFFSET <= i16::MAX
    &&& placed.position.y + Y_OFFSET <= i16::MAX
    &&& i16::MIN <= placed.width - WIDTH_OFFSET
    &&& i16::MIN <= placed.height - Y_OFFSET
}

/// The part of the sprite that counts in collisions: the sprite without its
/// transparent margin.
pub open spec fn body_of(
    frames: Seq<(String, Cell)>,
    machine: state::RedHatBoyStateMachine,
) -> Rect {
    let placed = placed_of(frames, machine);
    Rect {
        position: crate::engine::Point {
            x: (placed.position.x + X_OFFSET) as i16,
            y: (placed.position.y + Y_OFFSET) as i16,
        },
        width: (placed.width - WIDTH_OFFSET) as i16,
        height: (placed.height - Y_OFFSET) as i16,
    }
}

pub struct RedHatBoy {
    state: state::RedHatBoyStateMachine,
    sheet: Sheet,
}

impl RedHatBoy {
    /// The state the boy is in.
    pub closed spec fn machine(&self) -> state::RedHatBoyStateMachine {
        self.state
    }

    /// The sprites the boy is drawn with.
    pub closed spec fn frames(&self) -> Seq<(String, Cell)> {
        self.sheet.frames@
    }

    /// The name of the sprite that shows the boy now.
    pub open spec fn sprite_name(&self) -> Seq<char> {
        sprite_name_of(self.machine())
    }

    /// The sprite that shows the boy now, if the sheet has it.
    pub open spec fn sprite(&self) -> Option<Cell> {
        sprite_of(self.frames(), self.machine())
    }

    /// Whether the boy can be placed on the canvas.
    pub open spec fn can_place(&self) -> bool {
        can_place_of(self.frames(), self.machine())
    }

    /// Where the sprite is drawn.
    pub open spec fn placed(&self) -> Rect {
        placed_of(self.frames(), self.machine())
    }

    /// Whether the boy's body can be told from his sprite.
    pub open spec fn can_collide(&self) -> bool {
        can_collide_of(self.frames(), self.machine())
    }

    /// The part of the sprite that counts in collisions.
    pub open spec fn body(&self) -> Rect {
        body_of(self.frames(), self.machine())
    }

    /// A boy who stands idle and is drawn with `sheet`.
    pub fn new(sheet: Sheet) -> (boy: Self)
        ensures
            boy.machine() == state::RedHatBoyStateMachine::Idle(
                state::RedHatBoyState {
                    context: state::RedHatBoyContext::initial(),
                    _state: state::idle::Idle,
                },
            ),
            boy.frames() == sheet.frames@,
    {
        RedHatBoy { state: state::RedHatBoyStateMachine::default(), sheet }
    }

    pub fn frame_name(&self) -> (name: String)
        ensures
            name@ == self.sprite_name(),
    {
        proof {
            reveal_strlit(" (");
            reveal_strlit(").png");
        }
        let mut name = String::from_str(self.state.frame_name());
        name.append(" (");
        push_decimal(&mut name, ((self.state.context().frame / FRAMES_PER_SPRITE) + 1) as u64);
        name.append(").png");
        assert(name@ =~= self.sprite_name());
        name
    }

    pub fn current_sprite(&self) -> (sprite: Option<&Cell>)
        ensures
            sprite is Some <==> self.sprite() is Some,
            sprite matches Some(cell) ==> *cell == self.sprite()->0,
    {
        let name = self.frame_name();
        self.sheet.cell(name.as_str())
    }

    pub fn destination_box(&self) -> (rect: Rect)
        requires
            self.can_place(),
        ensures
            rect == self.placed(),
    {
        let sprite = match self.current_sprite() {
            Some(sprite) => sprite,
            None => vstd::pervasive::unreached(),
        };
        Rect::new_from_xy(
            self.state.context().position.x + sprite.sprite_source_size.x,
            self.state.context().position.y + sprite.sprite_source_size.y,
            sprite.frame.w,
            sprite.frame.h,
        )
    }

    pub fn bounding_box(&self) -> (rect: Rect)
        requires
            self.can_collide(),
        ensures
            rect == self.body(),
    {
        Rect::new_from_xy(
            self.destination_box().x() + X_OFFSET,
            self.destination_box().y() + Y_OFFSET,
            self.destination_box().width - WIDTH_OFFSET,
            self.destination_box().height - Y_OFFSET,
        )
    }

    pub fn walking_speed(&self) -> (speed: i16)
        ensures
            speed == self.machine().spec_context().velocity.x,
    {
        self.state.context().velocity.x
    }

    pub fn pos_y(&self) -> (y: i16)
        ensures
            y == self.machine().spec_context().position.y,
    {
        self.state.context().position.y
    }

    pub fn velocity_y(&self) -> (y: i16)
        ensures
            y == self.machine().spec_context().velocity.y,
    {
        self.state.context().velocity.y
    }

    pub fn update(&mut self)
        requires
            old(self).machine().accepts(state::Event::Update),
        ensures
            final(self).machine() == old(self).machine().next(state::Event::Update),
            final(self).frames() == old(self).frames(),
    {
        self.transition(state::Event::Update);
    }

    pub fn run_right(&mut self)
        requires
            old(self).machine().accepts(state::Event::Run),
        ensures
            final(self).machine() == old(self).machine().next(state::Event::Run),
            final(self).frames() == old(self).frames(),
    {
        self.transition(state::Event::Run);
    }

    pub fn slide(&mut self)
        ensures
            final(self).machine() == old(self).machine().next(state::Event::Slide),
            final(self).frames() == old(self).frames(),
    {
        self.transition(state::Event::Slide);
    }

    pub fn jump(&mut self)
        ensures
            final(self).machine() == old(self).machine().next(state::Event::Jump),
            final(self).frames() == old(self).frames(),
    {
        self.transition(state::Event::Jump);
    }

    pub fn land_on(&mut self, position: i16)
        requires
            old(self).machine().accepts(state::Event::Land(position)),
        ensures
            final(self).machine() == old(self).machine().next(state::Event::Land(position)),
            final(self).frames() == old(self).frames(),
    {
        self.transition(state::Event::Land(position));
    }

    pub fn knock_out(&mut self)
        ensures
            final(self).machine() == old(self).machine().next(state::Event::KnockOut),
            final(self).frames() == old(self).frames(),
    {
        self.transition(state::Event::KnockOut);
    }

    fn transition(&mut self, event: state::Event)
        requires
            old(self).machine().accepts(event),
        ensures
            final(self).machine() == old(self).machine().next(event),
            final(self).frames() == old(self).frames(),
    {
        self.state = self.state.transition(event);
    }
}

} // verus!
