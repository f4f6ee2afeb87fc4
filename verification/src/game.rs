//! The world the boy runs through: the obstacles in his way and what
//! happens when he meets one.

use crate::engine::{lookup, Cell, Image, KeyState, Picture, Point, Rect, Sheet};
use crate::rhb::state::idle::Idle;
use crate::rhb::state::{Event, RedHatBoyContext, RedHatBoyState, RedHatBoyStateMachine};
use crate::rhb::{body_of, can_collide_of, RedHatBoy};
use crate::segments::{
    platform_and_stone, stone_and_platform, stone_with_platform, FIRST_PLATFORM, HIGH_PLATFORM,
    LOW_PLATFORM, PLATFORM_WIDTH, STONE_ON_GROUND,
};
use vstd::prelude::*;

verus! {

/// Height of the canvas in pixels.
pub const HEIGHT: i16 = 600;

/// A new stretch of obstacles is laid out when less than this much of the
/// old one lies ahead.
pub const TIMELINE_MINIMUM: i16 = 1000;

/// The gap between two stretches of obstacles.
pub const OBSTACLE_BUFFER: i16 = 20;

/// Whether each of `boxes` has its right and bottom edges on the 16-bit grid.
pub open spec fn all_fit(boxes: Seq<Rect>) -> bool {
    forall|i: int| 0 <= i < boxes.len() ==> (#[trigger] boxes[i]).fits()
}

/// Whether each of `boxes` can be moved `x` pixels to the right and still
/// have its left edge on the 16-bit grid.
pub open spec fn can_shift(boxes: Seq<Rect>, x: i16) -> bool {
    forall|i: int|
        0 <= i < boxes.len() ==> i16::MIN <= (#[trigger] boxes[i]).position.x + x <= i16::MAX
}

/// `boxes`, each moved `x` pixels to the right.
pub open spec fn shifted(boxes: Seq<Rect>, x: i16) -> Seq<Rect> {
    boxes.map_values(|rect: Rect| rect.at_x((rect.position.x + x) as i16))
}

/// The right edge of the last of `boxes`; zero where there is none.
pub open spec fn right_edge(boxes: Seq<Rect>) -> int {
    if boxes.len() == 0 {
        0
    } else {
        boxes.last().position.x + boxes.last().width
    }
}

/// The first of `boxes` that overlaps `body`.
pub open spec fn first_overlap(boxes: Seq<Rect>, body: Rect) -> Option<Rect>
    decreases boxes.len(),
{
    if boxes.len() == 0 {
        None
    } else if body.overlaps(boxes[0]) {
        Some(boxes[0])
    } else {
        first_overlap(boxes.drop_first(), body)
    }
}

/// What an obstacle is, as far as the game is concerned.
pub enum Outline {
    /// A picture that knocks the boy out when he touches it.
    Stone { picture: Picture, bounds: Rect },
    /// A run of tiles that the boy can land on from above.
    Ledge { position: Point, boxes: Seq<Rect>, tiles: Seq<Cell> },
}

impl Outline {
    /// The point from which the obstacle is drawn.
    pub open spec fn anchor(self) -> Point {
        match self {
            Outline::Stone { bounds, .. } => bounds.position,
            Outline::Ledge { position, .. } => position,
        }
    }

    /// The parts of the canvas in which the boy collides with the obstacle.
    pub open spec fn boxes(self) -> Seq<Rect> {
        match self {
            Outline::Stone { bounds, .. } => seq![bounds],
            Outline::Ledge { boxes, .. } => boxes,
        }
    }

    /// How far to the right the obstacle reaches.
    pub open spec fn right_edge(self) -> int {
        right_edge(self.boxes())
    }

    /// Whether the obstacle can be moved `x` pixels to the right.
    pub open spec fn can_move(self, x: i16) -> bool {
        &&& i16::MIN <= self.anchor().x + x <= i16::MAX
        &&& can_shift(self.boxes(), x)
    }

    /// The obstacle, moved `x` pixels to the right.
    pub open spec fn moved(self, x: i16) -> Outline {
        match self {
            Outline::Stone { picture, bounds } => Outline::Stone {
                picture,
                bounds: bounds.at_x((bounds.position.x + x) as i16),
            },
            Outline::Ledge { position, boxes, tiles } => Outline::Ledge {
                position: Point { x: (position.x + x) as i16, y: position.y },
                boxes: shifted(boxes, x),
                tiles,
            },
        }
    }

    /// What happens to a boy whose body covers `body` and who moves as
    /// `context` says, if anything. Touching a stone knocks him out. A boy
    /// who touches a ledge while he falls from above it lands on the box he
    /// touches first; touching it in any other way knocks him out.
    pub open spec fn reaction(self, body: Rect, context: RedHatBoyContext) -> Option<Event> {
        match self {
            Outline::Stone { bounds, .. } => if body.overlaps(bounds) {
                Some(Event::KnockOut)
            } else {
                None
            },
            Outline::Ledge { position, boxes, .. } => match first_overlap(boxes, body) {
                Some(box_to_land_on) => if context.velocity.y > 0 && context.position.y
                    < position.y {
                    Some(Event::Land(box_to_land_on.position.y))
                } else {
                    Some(Event::KnockOut)
                },
                None => None,
            },
        }
    }
}

/// The outlines of a list of obstacles.
pub open spec fn outlines_of<O: Obstacle>(obstacles: Seq<O>) -> Seq<Outline> {
    obstacles.map_values(|obstacle: O| obstacle.outline())
}

/// Something in the boy's way.
pub trait Obstacle {
    spec fn outline(&self) -> Outline;

    /// Tells the boy what meeting this obstacle does to him.
    fn check_intersection(&self, boy: &mut RedHatBoy)
        requires
            old(boy).can_collide(),
            old(boy).body().fits(),
            all_fit(self.outline().boxes()),
            self.outline().reaction(old(boy).body(), old(boy).machine().spec_context()) matches Some(
                event,
            ) ==> old(boy).machine().accepts(event),
        ensures
            final(boy).frames() == old(boy).frames(),
            final(boy).machine() == match self.outline().reaction(
                old(boy).body(),
                old(boy).machine().spec_context(),
            ) {
                Some(event) => old(boy).machine().next(event),
                None => old(boy).machine(),
            },
    ;

    fn move_horizontally(&mut self, x: i16)
        requires
            old(self).outline().can_move(x),
        ensures
            final(self).outline() == old(self).outline().moved(x),
    ;

    fn right(&self) -> (edge: i16)
        requires
            all_fit(self.outline().boxes()),
        ensures
            edge == self.outline().right_edge(),
    ;
}

/// A run of tiles to jump on, with a box for each part that can be hit.
pub struct Platform {
    bounding_boxes: Vec<Rect>,
    sprites: Vec<Cell>,
    position: Point,
}

/// The sprites that `names` stand for on a sheet, in order; a name that the
/// sheet lacks is passed over.
pub open spec fn named_sprites(frames: Seq<(String, Cell)>, names: Seq<Seq<char>>) -> Seq<Cell>
    decreases names.len(),
{
    if names.len() == 0 {
        Seq::empty()
    } else {
        let front = named_sprites(frames, names.drop_last());
        match lookup(frames, names.last()) {
            Some(cell) => front.push(cell),
            None => front,
        }
    }
}

/// `boxes`, each moved by `offset`.
pub open spec fn placed_at(boxes: Seq<Rect>, offset: Point) -> Seq<Rect> {
    boxes.map_values(
        |rect: Rect|
            Rect {
                position: Point {
                    x: (rect.position.x + offset.x) as i16,
                    y: (rect.position.y + offset.y) as i16,
                },
                ..rect
            },
    )
}

impl Platform {
    /// The tiles that draw the platform, from left to right.
    pub closed spec fn tiles(&self) -> Seq<Cell> {
        self.sprites@
    }

    /// The point from which the platform is drawn.
    pub closed spec fn anchor(&self) -> Point {
        self.position
    }

    /// The boxes in which the boy collides with the platform.
    pub closed spec fn boxes(&self) -> Seq<Rect> {
        self.bounding_boxes@
    }

    /// A platform at `position`. Its tiles are looked up on `sheet`; its
    /// boxes are given as if the platform stood at the origin.
    pub fn new(
        sheet: &Sheet,
        position: Point,
        sprite_names: &[&str],
        bounding_boxes: &[Rect],
    ) -> (platform: Self)
        requires
            forall|i: int|
                0 <= i < bounding_boxes@.len() ==> {
                    &&& i16::MIN <= (#[trigger] bounding_boxes@[i]).position.x + position.x
                        <= i16::MAX
                    &&& i16::MIN <= bounding_boxes@[i].position.y + position.y <= i16::MAX
                },
        ensures
            platform.anchor() == position,
            platform.boxes() == placed_at(bounding_boxes@, position),
            platform.tiles() == named_sprites(
                sheet.frames@,
                sprite_names@.map_values(|name: &str| name@),
            ),
    {
        let mut sprites: Vec<Cell> = Vec::new();
        let mut i: usize = 0;
        let ghost names = sprite_names@.map_values(|name: &str| name@);
        assert(names.take(0) =~= Seq::<Seq<char>>::empty());
        while i < sprite_names.len()
            invariant
                i <= sprite_names@.len(),
                names == sprite_names@.map_values(|name: &str| name@),
                sprites@ == named_sprites(sheet.frames@, names.take(i as int)),
            decreases sprite_names@.len() - i,
        {
            assert(names.take(i + 1).drop_last() =~= names.take(i as int));
            assert(names.take(i + 1).last() == sprite_names@[i as int]@);
            if let Some(cell) = sheet.cell(sprite_names[i]) {
                sprites.push(*cell);
            }
            i += 1;
        }
        assert(names.take(i as int) =~= names);
        let mut boxes: Vec<Rect> = Vec::new();
        let mut j: usize = 0;
        while j < bounding_boxes.len()
            invariant
                j <= bounding_boxes@.len(),
                boxes@.len() == j,
                forall|i: int|
                    0 <= i < bounding_boxes@.len() ==> {
                        &&& i16::MIN <= (#[trigger] bounding_boxes@[i]).position.x + position.x
                            <= i16::MAX
                        &&& i16::MIN <= bounding_boxes@[i].position.y + position.y <= i16::MAX
                    },
                forall|i: int|
                    0 <= i < j ==> #[trigger] boxes@[i] == placed_at(bounding_boxes@, position)[i],
            decreases bounding_boxes@.len() - j,
        {
            let bounding_box = &bounding_boxes[j];
            assert(bounding_boxes@[j as int] == *bounding_box);
            boxes.push(
                Rect::new_from_xy(
                    bounding_box.x() + position.x,
                    bounding_box.y() + position.y,
                    bounding_box.width,
                    bounding_box.height,
                ),
            );
            j += 1;
        }
        assert(boxes@ =~= placed_at(bounding_boxes@, position));
        Platform { position, sprites, bounding_boxes: boxes }
    }

    pub fn bounding_boxes(&self) -> (boxes: &Vec<Rect>)
        ensures
            boxes@ == self.boxes(),
    {
        &self.bounding_boxes
    }

    pub fn sprites(&self) -> (sprites: &Vec<Cell>)
        ensures
            sprites@ == self.tiles(),
    {
        &self.sprites
    }

    pub fn position(&self) -> (position: Point)
        ensures
            position == self.anchor(),
    {
        self.position
    }
}

impl Obstacle for Platform {
    open spec fn outline(&self) -> Outline {
        Outline::Ledge { position: self.anchor(), boxes: self.boxes(), tiles: self.tiles() }
    }

    fn move_horizontally(&mut self, x: i16) {
        self.position.x += x;
        let mut i: usize = 0;
        while i < self.bounding_boxes.len()
            invariant
                i <= self.bounding_boxes@.len(),
                self.bounding_boxes@.len() == old(self).bounding_boxes@.len(),
                self.sprites == old(self).sprites,
                self.position == (Point {
                    x: (old(self).position.x + x) as i16,
                    y: old(self).position.y,
                }),
                can_shift(old(self).bounding_boxes@, x),
                forall|k: int|
                    0 <= k < i ==> #[trigger] self.bounding_boxes@[k] == shifted(
                        old(self).bounding_boxes@,
                        x,
                    )[k],
                forall|k: int|
                    i <= k < self.bounding_boxes@.len() ==> #[trigger] self.bounding_boxes@[k]
                        == old(self).bounding_boxes@[k],
            decreases self.bounding_boxes@.len() - i,
        {
            let mut bounding_box = self.bounding_boxes[i];
            assert(old(self).bounding_boxes@[i as int].position.x + x <= i16::MAX);
            bounding_box.set_x(bounding_box.position.x + x);
            self.bounding_boxes.set(i, bounding_box);
            i += 1;
        }
        assert(self.bounding_boxes@ =~= shifted(old(self).bounding_boxes@, x));
    }

    fn check_intersection(&self, boy: &mut RedHatBoy) {
        let body = boy.bounding_box();
        let mut i: usize = 0;
        assert(self.bounding_boxes@.skip(0) =~= self.bounding_boxes@);
        while i < self.bounding_boxes.len()
            invariant
                i <= self.bounding_boxes@.len(),
                *boy == *old(boy),
                body == boy.body(),
                body.fits(),
                all_fit(self.bounding_boxes@),
                first_overlap(self.bounding_boxes@, body) == first_overlap(
                    self.bounding_boxes@.skip(i as int),
                    body,
                ),
                self.outline().reaction(body, boy.machine().spec_context()) matches Some(event)
                    ==> boy.machine().accepts(event),
            decreases self.bounding_boxes@.len() - i,
        {
            assert(self.bounding_boxes@.skip(i as int).drop_first() =~= self.bounding_boxes@.skip(
                i + 1,
            ));
            assert(self.bounding_boxes@[i as int].fits());
            if body.intersects(&self.bounding_boxes[i]) {
                let box_to_land_on = &self.bounding_boxes[i];
                if boy.velocity_y() > 0 && boy.pos_y() < self.position.y {
                    boy.land_on(box_to_land_on.y());
                } else {
                    boy.knock_out();
                }
                return ;
            }
            i += 1;
        }
    }

    fn right(&self) -> (edge: i16) {
        let count = self.bounding_boxes.len();
        if count == 0 {
            Rect::default().right()
        } else {
            assert(self.bounding_boxes@[count - 1].fits());
            self.bounding_boxes[count - 1].right()
        }
    }
}

/// A stone on the ground.
pub struct Barrier {
    image: Image,
}

impl Barrier {
    /// The picture that shows the barrier, with its place.
    pub closed spec fn picture(&self) -> Image {
        self.image
    }

    pub fn new(image: Image) -> (barrier: Self)
        ensures
            barrier.picture() == image,
    {
        Barrier { image }
    }

    pub fn image(&self) -> (image: &Image)
        ensures
            *image == self.picture(),
    {
        &self.image
    }
}

impl Obstacle for Barrier {
    open spec fn outline(&self) -> Outline {
        Outline::Stone { picture: self.picture().picture(), bounds: self.picture().bounds() }
    }

    fn check_intersection(&self, boy: &mut RedHatBoy) {
        assert(self.outline().boxes()[0].fits());
        if boy.bounding_box().intersects(self.image.bounding_box()) {
            boy.knock_out()
        }
    }

    fn move_horizontally(&mut self, x: i16) {
        assert(old(self).outline().boxes()[0].position.x + x <= i16::MAX);
        self.image.move_horizontally(x);
    }

    fn right(&self) -> (edge: i16) {
        assert(self.outline().boxes()[0].fits());
        assert(self.outline().boxes().last() == self.outline().boxes()[0]);
        self.image.right()
    }
}

/// Any of the obstacles that the game knows.
pub enum AnyObstacle {
    Barrier(Barrier),
    Platform(Platform),
}

impl Obstacle for AnyObstacle {
    open spec fn outline(&self) -> Outline {
        match self {
            AnyObstacle::Barrier(barrier) => barrier.outline(),
            AnyObstacle::Platform(platform) => platform.outline(),
        }
    }

    fn check_intersection(&self, boy: &mut RedHatBoy) {
        match self {
            AnyObstacle::Barrier(barrier) => barrier.check_intersection(boy),
            AnyObstacle::Platform(platform) => platform.check_intersection(boy),
        }
    }

    fn move_horizontally(&mut self, x: i16) {
        match self {
            AnyObstacle::Barrier(barrier) => barrier.move_horizontally(x),
            AnyObstacle::Platform(platform) => platform.move_horizontally(x),
        }
    }

    fn right(&self) -> (edge: i16) {
        match self {
            AnyObstacle::Barrier(barrier) => barrier.right(),
            AnyObstacle::Platform(platform) => platform.right(),
        }
    }
}

/// How far to the right the obstacles of a list reach: the largest of their
/// right edges, and zero for an empty list.
pub fn rightmost<O: Obstacle>(obstacle_list: &Vec<O>) -> (edge: i16)
    requires
        forall|i: int|
            0 <= i < obstacle_list@.len() ==> all_fit(
                (#[trigger] obstacle_list@[i]).outline().boxes(),
            ),
    ensures
        edge == rightmost_edge(outlines_of(obstacle_list@)),
{
    if obstacle_list.len() == 0 {
        return 0;
    }
    let ghost outlines = outlines_of(obstacle_list@);
    let mut edge = obstacle_list[0].right();
    let mut index: usize = 1;
    assert(outlines.take(1).drop_last() =~= Seq::<Outline>::empty());
    while index < obstacle_list.len()
        invariant
            1 <= index <= obstacle_list@.len(),
            outlines == outlines_of(obstacle_list@),
            forall|i: int|
                0 <= i < obstacle_list@.len() ==> all_fit(
                    (#[trigger] obstacle_list@[i]).outline().boxes(),
                ),
            edge == rightmost_edge(outlines.take(index as int)),
        decreases obstacle_list@.len() - index,
    {
        assert(outlines.take(index + 1).drop_last() =~= outlines.take(index as int));
        let right = obstacle_list[index].right();
        if right >= edge {
            edge = right;
        }
        index += 1;
    }
    assert(outlines.take(index as int) =~= outlines);
    edge
}

/// The largest of the right edges of `obstacles`; zero where there are none.
pub open spec fn rightmost_edge(obstacles: Seq<Outline>) -> int
    decreases obstacles.len(),
{
    if obstacles.len() == 0 {
        0
    } else if obstacles.len() == 1 {
        obstacles[0].right_edge()
    } else {
        let before = rightmost_edge(obstacles.drop_last());
        let last = obstacles.last().right_edge();
        if last >= before {
            last
        } else {
            before
        }
    }
}

/// The rightmost edge is one of the right edges, and none reaches further.
pub proof fn lemma_rightmost_edge(obstacles: Seq<Outline>)
    requires
        obstacles.len() > 0,
    ensures
        forall|i: int|
            0 <= i < obstacles.len() ==> (#[trigger] obstacles[i]).right_edge() <= rightmost_edge(
                obstacles,
            ),
        exists|i: int|
            0 <= i < obstacles.len() && (#[trigger] obstacles[i]).right_edge() == rightmost_edge(
                obstacles,
            ),
    decreases obstacles.len(),
{
    if obstacles.len() > 1 {
        let front = obstacles.drop_last();
        lemma_rightmost_edge(front);
        assert forall|i: int| 0 <= i < front.len() implies front[i] == obstacles[i] by {}
        let k = choose|i: int|
            0 <= i < front.len() && (#[trigger] front[i]).right_edge() == rightmost_edge(front);
        assert(front[k] == obstacles[k]);
        let last = obstacles.len() - 1;
        assert(obstacles[last] == obstacles.last());
        if obstacles.last().right_edge() >= rightmost_edge(front) {
            assert(obstacles[last].right_edge() == rightmost_edge(obstacles));
        } else {
            assert(obstacles[k].right_edge() == rightmost_edge(obstacles));
        }
        assert forall|i: int| 0 <= i < obstacles.len() implies (
        #[trigger] obstacles[i]).right_edge() <= rightmost_edge(obstacles) by {
            if i < front.len() {
                assert(front[i] == obstacles[i]);
            }
        }
    } else {
        assert(obstacles[0].right_edge() == rightmost_edge(obstacles));
    }
}

/// The obstacles that still reach into the canvas: those whose right edge
/// lies right of its left edge.
pub open spec fn still_ahead(obstacles: Seq<Outline>) -> Seq<Outline>
    decreases obstacles.len(),
{
    if obstacles.len() == 0 {
        Seq::empty()
    } else {
        let front = still_ahead(obstacles.drop_last());
        if obstacles.last().right_edge() > 0 {
            front.push(obstacles.last())
        } else {
            front
        }
    }
}

/// `obstacles`, each moved `x` pixels to the right.
pub open spec fn moved_all(obstacles: Seq<Outline>, x: i16) -> Seq<Outline> {
    obstacles.map_values(|outline: Outline| outline.moved(x))
}

/// The state of a boy who started in state `machine` and has met each of
/// `obstacles` in turn.
pub open spec fn met(
    frames: Seq<(String, Cell)>,
    machine: RedHatBoyStateMachine,
    obstacles: Seq<Outline>,
) -> RedHatBoyStateMachine
    decreases obstacles.len(),
{
    if obstacles.len() == 0 {
        machine
    } else {
        let before = met(frames, machine, obstacles.drop_last());
        match obstacles.last().reaction(body_of(frames, before), before.spec_context()) {
            Some(event) => before.next(event),
            None => before,
        }
    }
}

/// Whether a boy who starts in state `machine` can meet each of `obstacles`
/// in turn: at each meeting his body and the obstacle lie on the 16-bit
/// grid, and what the obstacle does to him is possible.
pub open spec fn can_meet(
    frames: Seq<(String, Cell)>,
    machine: RedHatBoyStateMachine,
    obstacles: Seq<Outline>,
) -> bool
    decreases obstacles.len(),
{
    if obstacles.len() == 0 {
        true
    } else {
        let before = met(frames, machine, obstacles.drop_last());
        &&& can_meet(frames, machine, obstacles.drop_last())
        &&& can_collide_of(frames, before)
        &&& body_of(frames, before).fits()
        &&& all_fit(obstacles.last().boxes())
        &&& obstacles.last().reaction(body_of(frames, before), before.spec_context()) matches Some(
            event,
        ) ==> before.accepts(event)
    }
}

/// A boy who can meet a row of obstacles can meet those at its front.
pub proof fn lemma_can_meet_front(
    frames: Seq<(String, Cell)>,
    machine: RedHatBoyStateMachine,
    obstacles: Seq<Outline>,
    count: int,
)
    requires
        can_meet(frames, machine, obstacles),
        0 <= count <= obstacles.len(),
    ensures
        can_meet(frames, machine, obstacles.take(count)),
    decreases obstacles.len(),
{
    if count == obstacles.len() {
        assert(obstacles.take(count) =~= obstacles);
    } else {
        lemma_can_meet_front(frames, machine, obstacles.drop_last(), count);
        assert(obstacles.drop_last().take(count) =~= obstacles.take(count));
    }
}

/// The boy's state after the keys that are held down have had their say:
/// the right arrow makes him run, the down arrow slide, the space bar jump.
pub open spec fn steered(machine: RedHatBoyStateMachine, keystate: &KeyState) -> RedHatBoyStateMachine {
    let running = if keystate.holds("ArrowRight"@) {
        machine.next(Event::Run)
    } else {
        machine
    };
    let sliding = if keystate.holds("ArrowDown"@) {
        running.next(Event::Slide)
    } else {
        running
    };
    if keystate.holds("Space"@) {
        sliding.next(Event::Jump)
    } else {
        sliding
    }
}

/// Whether two backgrounds that lie side by side can be moved `x` pixels to
/// the right, one being put behind the other when it has left the canvas.
pub open spec fn can_scroll(first: Rect, second: Rect, x: i16) -> bool {
    let a = first.at_x((first.position.x + x) as i16);
    let b = second.at_x((second.position.x + x) as i16);
    &&& i16::MIN <= first.position.x + x <= i16::MAX
    &&& i16::MIN <= second.position.x + x <= i16::MAX
    &&& a.fits()
    &&& b.fits()
    &&& b.position.x + b.width < 0 ==> scrolled(first, second, x).0.fits()
}

/// Two backgrounds, moved `x` pixels to the right; one that has left the
/// canvas on the left is put behind the other.
pub open spec fn scrolled(first: Rect, second: Rect, x: i16) -> (Rect, Rect) {
    let a = first.at_x((first.position.x + x) as i16);
    let b = second.at_x((second.position.x + x) as i16);
    let a = if a.position.x + a.width < 0 {
        a.at_x((b.position.x + b.width) as i16)
    } else {
        a
    };
    let b = if b.position.x + b.width < 0 {
        b.at_x((a.position.x + a.width) as i16)
    } else {
        b
    };
    (a, b)
}

/// The stretch of obstacles that choice `next_segment` lays out from
/// `offset_x` on: a stone and a low platform for 0, a high platform and a
/// stone for 1, nothing for any other choice.
pub open spec fn segment(
    next_segment: i32,
    stone: Picture,
    tiles: Seq<(String, Cell)>,
    offset_x: i16,
) -> Seq<Outline> {
    if next_segment == 0 {
        stone_with_platform(
            stone,
            tiles,
            Point { x: (offset_x + 150) as i16, y: STONE_ON_GROUND },
            Point { x: (offset_x + FIRST_PLATFORM) as i16, y: LOW_PLATFORM },
        )
    } else if next_segment == 1 {
        stone_with_platform(
            stone,
            tiles,
            Point { x: (offset_x + 400) as i16, y: STONE_ON_GROUND },
            Point { x: (offset_x + 200) as i16, y: HIGH_PLATFORM },
        )
    } else {
        Seq::empty()
    }
}

/// Whether a stretch of obstacles can be laid out from `offset_x` on with
/// all its boxes on the 16-bit grid.
pub open spec fn segment_fits(stone: Picture, offset_x: int) -> bool {
    &&& offset_x + FIRST_PLATFORM + PLATFORM_WIDTH <= i16::MAX
    &&& i16::MIN <= offset_x + 150 + stone.width
    &&& offset_x + 400 + stone.width <= i16::MAX
    &&& i16::MIN <= STONE_ON_GROUND + stone.height <= i16::MAX
}

/// `rand::Rng::gen_range` on the thread's generator draws a number from the
/// half-open range it is given, here 0 or 1.
#[verifier::external_body]
fn random_segment() -> (next_segment: i32)
    ensures
        0 <= next_segment < 2,
{
    rand::Rng::gen_range(&mut rand::thread_rng(), 0..2)
}

/// A game in progress.
pub struct Walk {
    boy: RedHatBoy,
    backgrounds: [Image; 2],
    obstacles: Vec<AnyObstacle>,
    sheet: Sheet,
    stone: Picture,
    timeline: i16,
}

impl Walk {
    /// The boy's state.
    pub closed spec fn machine(&self) -> RedHatBoyStateMachine {
        self.boy.machine()
    }

    /// The sprites the boy is drawn with.
    pub closed spec fn frames(&self) -> Seq<(String, Cell)> {
        self.boy.frames()
    }

    /// The places of the two backgrounds.
    pub closed spec fn background_bounds(&self) -> (Rect, Rect) {
        (self.backgrounds[0].bounds(), self.backgrounds[1].bounds())
    }

    /// The pictures of the two backgrounds.
    pub closed spec fn background_pictures(&self) -> (Picture, Picture) {
        (self.backgrounds[0].picture(), self.backgrounds[1].picture())
    }

    /// The obstacles, from the oldest to the newest.
    pub closed spec fn obstacles(&self) -> Seq<Outline> {
        outlines_of(self.obstacles@)
    }

    /// The sprites that platforms are drawn with.
    pub closed spec fn tiles(&self) -> Seq<(String, Cell)> {
        self.sheet.frames@
    }

    /// The picture of a stone.
    pub closed spec fn stone(&self) -> Picture {
        self.stone
    }

    /// How far the obstacles that are laid out reach to the right.
    pub closed spec fn timeline(&self) -> i16 {
        self.timeline
    }

    /// The boy's state after the keys and one tick of the clock.
    pub open spec fn ticked(&self, keystate: &KeyState) -> RedHatBoyStateMachine {
        steered(self.machine(), keystate).next(Event::Update)
    }

    /// How far everything moves to the right in one update: as far as the
    /// boy walks, in the other direction.
    pub open spec fn scroll(&self, keystate: &KeyState) -> int {
        -self.ticked(keystate).spec_context().velocity.x
    }

    /// The obstacles after one update, before any new ones are laid out.
    pub open spec fn ahead(&self, keystate: &KeyState) -> Seq<Outline> {
        moved_all(still_ahead(self.obstacles()), self.scroll(keystate) as i16)
    }

    /// Whether one update stays on the 16-bit grid.
    pub open spec fn can_update(&self, keystate: &KeyState) -> bool {
        let x = self.scroll(keystate) as i16;
        &&& keystate.holds("ArrowRight"@) ==> self.machine().accepts(Event::Run)
        &&& steered(self.machine(), keystate).accepts(Event::Update)
        &&& self.scroll(keystate) <= i16::MAX
        &&& can_scroll(self.background_bounds().0, self.background_bounds().1, x)
        &&& forall|i: int|
            0 <= i < self.obstacles().len() ==> all_fit((#[trigger] self.obstacles()[i]).boxes())
        &&& forall|i: int|
            0 <= i < still_ahead(self.obstacles()).len() ==> (#[trigger] still_ahead(
                self.obstacles(),
            )[i]).can_move(x)
        &&& can_meet(self.frames(), self.ticked(keystate), self.ahead(keystate))
        &&& if self.timeline() < TIMELINE_MINIMUM {
            segment_fits(self.stone(), self.timeline() + OBSTACLE_BUFFER)
        } else {
            i16::MIN <= self.timeline() + x <= i16::MAX
        }
    }

    /// Whether this is a game that begins: the boy stands idle, the two
    /// backgrounds lie side by side, and a stone and a platform are laid out.
    pub open spec fn begins(
        &self,
        frames: Seq<(String, Cell)>,
        background: Picture,
        stone: Picture,
        tiles: Seq<(String, Cell)>,
    ) -> bool {
        &&& self.machine() == RedHatBoyStateMachine::Idle(
            RedHatBoyState { context: RedHatBoyContext::initial(), _state: Idle },
        )
        &&& self.frames() == frames
        &&& self.background_pictures() == (background, background)
        &&& self.background_bounds() == (
            Rect {
                position: Point { x: 0, y: 0 },
                width: background.width,
                height: background.height,
            },
            Rect {
                position: Point { x: background.width, y: 0 },
                width: background.width,
                height: background.height,
            },
        )
        &&& self.obstacles() == segment(0, stone, tiles, 0)
        &&& self.tiles() == tiles
        &&& self.stone() == stone
        &&& self.timeline() == rightmost_edge(segment(0, stone, tiles, 0))
    }

    /// Whether `after` is this game one update later, `keystate` being the
    /// keys held down: the boy has obeyed the keys, lived through one tick
    /// and met the obstacles in turn; backgrounds and obstacles have moved
    /// against his walk, and obstacles that have left the canvas are gone;
    /// where little is left ahead, one of the two stretches of obstacles has
    /// been laid out.
    pub open spec fn updates_to(&self, after: &Walk, keystate: &KeyState) -> bool {
        let offset_x = (self.timeline() + OBSTACLE_BUFFER) as i16;
        &&& after.machine() == met(self.frames(), self.ticked(keystate), self.ahead(keystate))
        &&& after.frames() == self.frames()
        &&& after.background_bounds() == scrolled(
            self.background_bounds().0,
            self.background_bounds().1,
            self.scroll(keystate) as i16,
        )
        &&& after.background_pictures() == self.background_pictures()
        &&& after.tiles() == self.tiles()
        &&& after.stone() == self.stone()
        &&& if self.timeline() < TIMELINE_MINIMUM {
            exists|next_segment: i32|
                0 <= next_segment < 2 && after.obstacles() == self.ahead(keystate)
                    + #[trigger] segment(next_segment, self.stone(), self.tiles(), offset_x)
                    && after.timeline() == rightmost_edge(
                    segment(next_segment, self.stone(), self.tiles(), offset_x),
                )
        } else {
            &&& after.obstacles() == self.ahead(keystate)
            &&& after.timeline() == self.timeline() + self.scroll(keystate)
        }
    }

    /// A game that begins.
    pub fn new(boy_sheet: Sheet, background: Picture, stone: Picture, sheet: Sheet) -> (walk: Self)
        requires
            segment_fits(stone, 0),
        ensures
            walk.begins(boy_sheet.frames@, background, stone, sheet.frames@),
    {
        let point = Point { x: background.width, y: 0 };
        let backgrounds = [Image::new(background, Point::default()), Image::new(background, point)];
        let first = stone_and_platform(stone, &sheet, 0);
        proof {
            lemma_segment_fits(0, stone, sheet.frames@, 0);
            assert(outlines_of(first@) =~= segment(0, stone, sheet.frames@, 0));
            assert forall|i: int| 0 <= i < first@.len() implies all_fit(
                (#[trigger] first@[i]).outline().boxes(),
            ) by {
                assert(outlines_of(first@)[i] == first@[i].outline());
            }
        }
        let timeline = rightmost(&first);
        Walk {
            boy: RedHatBoy::new(boy_sheet),
            backgrounds,
            obstacles: stone_and_platform(stone, &sheet, 0),
            sheet,
            stone,
            timeline,
        }
    }

    pub fn boy(&self) -> (boy: &RedHatBoy)
        ensures
            boy.machine() == self.machine(),
            boy.frames() == self.frames(),
    {
        &self.boy
    }

    pub fn scenery(&self) -> (backgrounds: &[Image; 2])
        ensures
            backgrounds[0].bounds() == self.background_bounds().0,
            backgrounds[1].bounds() == self.background_bounds().1,
            backgrounds[0].picture() == self.background_pictures().0,
            backgrounds[1].picture() == self.background_pictures().1,
    {
        &self.backgrounds
    }

    pub fn obstacle_list(&self) -> (obstacles: &Vec<AnyObstacle>)
        ensures
            outlines_of(obstacles@) == self.obstacles(),
    {
        &self.obstacles
    }

    pub fn reach(&self) -> (timeline: i16)
        ensures
            timeline == self.timeline(),
    {
        self.timeline
    }

    pub fn velocity(&self) -> (x: i16)
        requires
            self.machine().spec_context().velocity.x > i16::MIN,
        ensures
            x == -self.machine().spec_context().velocity.x,
    {
        -self.boy.walking_speed()
    }

    /// Lays out the stretch of obstacles that `next_segment` chooses, a
    /// little behind the obstacles that are there.
    pub fn add_segment(&mut self, next_segment: i32)
        requires
            segment_fits(old(self).stone(), old(self).timeline() + OBSTACLE_BUFFER),
        ensures
            final(self).obstacles() == old(self).obstacles() + segment(
                next_segment,
                old(self).stone(),
                old(self).tiles(),
                (old(self).timeline() + OBSTACLE_BUFFER) as i16,
            ),
            final(self).timeline() == rightmost_edge(
                segment(
                    next_segment,
                    old(self).stone(),
                    old(self).tiles(),
                    (old(self).timeline() + OBSTACLE_BUFFER) as i16,
                ),
            ),
            final(self).machine() == old(self).machine(),
            final(self).frames() == old(self).frames(),
            final(self).background_bounds() == old(self).background_bounds(),
            final(self).background_pictures() == old(self).background_pictures(),
            final(self).tiles() == old(self).tiles(),
            final(self).stone() == old(self).stone(),
    {
        let mut next_obstacles = match next_segment {
            0 => stone_and_platform(self.stone, &self.sheet, self.timeline + OBSTACLE_BUFFER),
            1 => platform_and_stone(self.stone, &self.sheet, self.timeline + OBSTACLE_BUFFER),
            _ => Vec::new(),
        };
        proof {
            lemma_segment_fits(
                next_segment,
                self.stone,
                self.sheet.frames@,
                (self.timeline + OBSTACLE_BUFFER) as i16,
            );
            assert(outlines_of(next_obstacles@) =~= segment(
                next_segment,
                self.stone,
                self.sheet.frames@,
                (self.timeline + OBSTACLE_BUFFER) as i16,
            ));
        }
        self.timeline = rightmost(&next_obstacles);
        let ghost added = next_obstacles@;
        self.obstacles.append(&mut next_obstacles);
        assert(outlines_of(self.obstacles@) =~= outlines_of(old(self).obstacles@) + outlines_of(
            added,
        ));
    }

    /// One frame of the game.
    pub fn update(&mut self, keystate: &KeyState)
        requires
            old(self).can_update(keystate),
        ensures
            old(self).updates_to(final(self), keystate),
    {
        let ghost frames = self.frames();
        let ghost ticked = self.ticked(keystate);
        if keystate.is_pressed("ArrowRight") {
            self.boy.run_right();
        }
        if keystate.is_pressed("ArrowDown") {
            self.boy.slide();
        }
        if keystate.is_pressed("Space") {
            self.boy.jump();
        }
        self.boy.update();
        let velocity = self.velocity();
        assert(velocity == old(self).scroll(keystate));

        let mut first_background = self.backgrounds[0];
        let mut second_background = self.backgrounds[1];
        first_background.move_horizontally(velocity);
        second_background.move_horizontally(velocity);
        if first_background.right() < 0 {
            first_background.set_x(second_background.right());
        }
        if second_background.right() < 0 {
            second_background.set_x(first_background.right());
        }
        self.backgrounds = [first_background, second_background];

        let mut passing: Vec<AnyObstacle> = Vec::new();
        core::mem::swap(&mut passing, &mut self.obstacles);
        let ghost all = passing@;
        let ghost outlines = outlines_of(all);
        let ghost mut seen: int = 0;
        assert(outlines.take(0) =~= Seq::<Outline>::empty());
        assert(all.skip(0) =~= all);
        assert(outlines_of(self.obstacles@) =~= still_ahead(outlines.take(0)));
        let ghost walk = *self;
        while passing.len() > 0
            invariant
                0 <= seen <= all.len(),
                outlines == outlines_of(all),
                passing@ == all.skip(seen),
                outlines_of(self.obstacles@) == still_ahead(outlines.take(seen)),
                forall|i: int| 0 <= i < outlines.len() ==> all_fit((#[trigger] outlines[i]).boxes()),
                self.boy == walk.boy,
                self.backgrounds == walk.backgrounds,
                self.sheet == walk.sheet,
                self.stone == walk.stone,
                self.timeline == walk.timeline,
            decreases passing@.len(),
        {
            let obstacle = passing.remove(0);
            proof {
                assert(passing@ =~= all.skip(seen + 1));
                assert(obstacle == all[seen]);
                assert(outlines[seen] == obstacle.outline());
                assert(outlines.take(seen + 1).drop_last() =~= outlines.take(seen));
                assert(outlines.take(seen + 1).last() == outlines[seen]);
            }
            let ghost before = self.obstacles@;
            if obstacle.right() > 0 {
                self.obstacles.push(obstacle);
                assert(outlines_of(self.obstacles@) =~= outlines_of(before).push(
                    obstacle.outline(),
                ));
            }
            proof {
                seen = seen + 1;
            }
        }
        assert(outlines.take(seen) =~= outlines);

        core::mem::swap(&mut passing, &mut self.obstacles);
        let ghost kept = passing@;
        let ghost moved = moved_all(outlines_of(kept), velocity);
        let ghost mut done: int = 0;
        assert(kept.skip(0) =~= kept);
        assert(outlines_of(self.obstacles@) =~= moved.take(0));
        while passing.len() > 0
            invariant
                0 <= done <= kept.len(),
                moved == moved_all(outlines_of(kept), velocity),
                passing@ == kept.skip(done),
                outlines_of(self.obstacles@) == moved.take(done),
                forall|i: int|
                    0 <= i < kept.len() ==> (#[trigger] outlines_of(kept)[i]).can_move(velocity),
                can_meet(frames, ticked, moved),
                self.boy.frames() == frames,
                self.boy.machine() == met(frames, ticked, moved.take(done)),
                self.backgrounds == walk.backgrounds,
                self.sheet == walk.sheet,
                self.stone == walk.stone,
                self.timeline == walk.timeline,
            decreases passing@.len(),
        {
            let mut obstacle = passing.remove(0);
            proof {
                assert(passing@ =~= kept.skip(done + 1));
                assert(obstacle == kept[done]);
                assert(outlines_of(kept)[done] == obstacle.outline());
                lemma_can_meet_front(frames, ticked, moved, done + 1);
                assert(moved.take(done + 1).drop_last() =~= moved.take(done));
                assert(moved.take(done + 1).last() == moved[done]);
            }
            obstacle.move_horizontally(velocity);
            assert(obstacle.outline() == moved[done]);
            obstacle.check_intersection(&mut self.boy);
            let ghost before = self.obstacles@;
            self.obstacles.push(obstacle);
            proof {
                assert(outlines_of(self.obstacles@) =~= outlines_of(before).push(obstacle.outline()));
                assert(moved.take(done + 1) =~= moved.take(done).push(moved[done]));
                done = done + 1;
            }
        }
        assert(moved.take(done) =~= moved);
        assert(moved == old(self).ahead(keystate));
        assert(self.obstacles() == old(self).ahead(keystate));
        assert(self.machine() == met(frames, ticked, old(self).ahead(keystate)));
        assert(self.background_bounds() == scrolled(
            old(self).background_bounds().0,
            old(self).background_bounds().1,
            velocity,
        ));

        if self.timeline < TIMELINE_MINIMUM {
            let ghost before = *self;
            self.generate_next_segment();
            proof {
                let offset_x = (old(self).timeline() + OBSTACLE_BUFFER) as i16;
                let next_segment = choose|next_segment: i32|
                    0 <= next_segment < 2 && self.obstacles() == before.obstacles()
                        + #[trigger] segment(
                        next_segment,
                        before.stone(),
                        before.tiles(),
                        (before.timeline() + OBSTACLE_BUFFER) as i16,
                    ) && self.timeline() == rightmost_edge(
                        segment(
                            next_segment,
                            before.stone(),
                            before.tiles(),
                            (before.timeline() + OBSTACLE_BUFFER) as i16,
                        ),
                    );
                assert(before.stone() == old(self).stone());
                assert(before.tiles() == old(self).tiles());
                assert(before.timeline() == old(self).timeline());
                let laid = segment(next_segment, old(self).stone(), old(self).tiles(), offset_x);
                assert(0 <= next_segment < 2 && self.obstacles() == old(self).ahead(keystate) + laid
                    && self.timeline() == rightmost_edge(laid));
            }
            assert(old(self).updates_to(self, keystate));
        } else {
            self.timeline += velocity;
            assert(old(self).updates_to(self, keystate));
        }
    }

    /// Lays out one of the two stretches of obstacles, chosen at random.
    pub fn generate_next_segment(&mut self)
        requires
            segment_fits(old(self).stone(), old(self).timeline() + OBSTACLE_BUFFER),
        ensures
            exists|next_segment: i32|
                0 <= next_segment < 2 && final(self).obstacles() == old(self).obstacles()
                    + #[trigger] segment(
                    next_segment,
                    old(self).stone(),
                    old(self).tiles(),
                    (old(self).timeline() + OBSTACLE_BUFFER) as i16,
                ) && final(self).timeline() == rightmost_edge(
                    segment(
                        next_segment,
                        old(self).stone(),
                        old(self).tiles(),
                        (old(self).timeline() + OBSTACLE_BUFFER) as i16,
                    ),
                ),
            final(self).machine() == old(self).machine(),
            final(self).frames() == old(self).frames(),
            final(self).background_bounds() == old(self).background_bounds(),
            final(self).background_pictures() == old(self).background_pictures(),
            final(self).tiles() == old(self).tiles(),
            final(self).stone() == old(self).stone(),
    {
        let next_segment = random_segment();
        self.add_segment(next_segment);
    }
}

/// The boxes of a stretch of obstacles that fits lie on the 16-bit grid.
pub proof fn lemma_segment_fits(
    next_segment: i32,
    stone: Picture,
    tiles: Seq<(String, Cell)>,
    offset_x: i16,
)
    requires
        segment_fits(stone, offset_x as int),
    ensures
        forall|i: int|
            0 <= i < segment(next_segment, stone, tiles, offset_x).len() ==> all_fit(
                (#[trigger] segment(next_segment, stone, tiles, offset_x)[i]).boxes(),
            ),
{
    let laid = segment(next_segment, stone, tiles, offset_x);
    if laid.len() > 0 {
        assert(laid.len() == 2);
        assert(all_fit(laid[0].boxes()));
        let boxes = laid[1].boxes();
        assert(boxes.len() == 3);
        assert forall|k: int| 0 <= k < boxes.len() implies (#[trigger] boxes[k]).fits() by {
            if k == 0 {
            } else if k == 1 {
            } else {
                assert(k == 2);
            }
        }
    }
}

/// Why a game could not be set up.
#[derive(Clone, Copy, Debug, PartialEq, Eq, Structural)]
pub enum GameError {
    /// The game has been set up before.
    Initialized,
}

impl GameError {
    /// The error in words.
    pub fn message(&self) -> (text: &'static str)
        ensures
            text@ == "Error: Game is initialized!"@,
    {
        "Error: Game is initialized!"
    }
}

/// The game, before and after its pictures have been loaded.
pub enum WalkTheDog {
    Loading,
    Loaded(Walk),
}

impl WalkTheDog {
    pub fn new() -> (game: Self)
        ensures
            game is Loading,
    {
        WalkTheDog::Loading
    }

    /// Begins the game with what has been loaded: the boy's sprites, the
    /// pictures of the background and of a stone, and the tiles. A game that
    /// has begun is left as it is, and the call fails.
    pub fn initialize(
        &mut self,
        boy_sheet: Sheet,
        background: Picture,
        stone: Picture,
        sheet: Sheet,
    ) -> (result: Result<(), GameError>)
        requires
            segment_fits(stone, 0),
        ensures
            *old(self) is Loading ==> result is Ok && (*final(self) matches WalkTheDog::Loaded(walk)
                && walk.begins(boy_sheet.frames@, background, stone, sheet.frames@)),
            *old(self) is Loaded ==> result == Err::<(), GameError>(GameError::Initialized)
                && *final(self) == *old(self),
    {
        match self {
            WalkTheDog::Loading => {
                let walk = Walk::new(boy_sheet, background, stone, sheet);
                *self = WalkTheDog::Loaded(walk);
                Ok(())
            },
            WalkTheDog::Loaded(_) => Err(GameError::Initialized),
        }
    }

    /// One frame of the game; nothing happens while the game is loading.
    pub fn update(&mut self, keystate: &KeyState)
        requires
            *old(self) matches WalkTheDog::Loaded(walk) ==> walk.can_update(keystate),
        ensures
            *old(self) is Loading ==> *final(self) is Loading,
            *old(self) matches WalkTheDog::Loaded(walk) ==> (*final(self) matches WalkTheDog::Loaded(
                after,
            ) && walk.updates_to(&after, keystate)),
    {
        if let WalkTheDog::Loaded(walk) = self {
            walk.update(keystate);
        }
    }
}

} // verus!
