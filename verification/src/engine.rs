//! Integer geometry shared by the game's sprites and obstacles.

use vstd::prelude::*;

verus! {

/// A position or a velocity on the canvas, in pixels.
#[derive(Clone, Copy, Debug, PartialEq, Eq, Structural)]
pub struct Point {
    pub x: i16,
    pub y: i16,
}

impl Default for Point {
    fn default() -> (point: Self)
        ensures
            point == (Point { x: 0, y: 0 }),
    {
        Point { x: 0, y: 0 }
    }
}

} // verus!

verus! {

/// An axis-parallel rectangle, given by its top left corner and its size.
#[derive(Clone, Copy, Debug, PartialEq, Eq, Structural)]
pub struct Rect {
    pub position: Point,
    pub width: i16,
    pub height: i16,
}

impl Default for Rect {
    fn default() -> (rect: Self)
        ensures
            rect == (Rect { position: Point { x: 0, y: 0 }, width: 0, height: 0 }),
    {
        Rect { position: Point { x: 0, y: 0 }, width: 0, height: 0 }
    }
}

impl Rect {
    /// Whether the rectangle's right and bottom edges lie on the 16-bit grid.
    pub open spec fn fits(self) -> bool {
        &&& i16::MIN <= self.position.x + self.width <= i16::MAX
        &&& i16::MIN <= self.position.y + self.height <= i16::MAX
    }

    /// Whether two rectangles overlap: each begins before the other ends, in
    /// both directions.
    pub open spec fn overlaps(self, other: Rect) -> bool {
        &&& self.position.x < other.position.x + other.width
        &&& self.position.x + self.width > other.position.x
        &&& self.position.y < other.position.y + other.height
        &&& self.position.y + self.height > other.position.y
    }

    /// The same rectangle, moved so that its left edge is at `x`.
    pub open spec fn at_x(self, x: i16) -> Rect {
        Rect { position: Point { x, y: self.position.y }, ..self }
    }

    pub fn new(position: Point, width: i16, height: i16) -> (rect: Self)
        ensures
            rect == (Rect { position, width, height }),
    {
        Rect { position, width, height }
    }

    pub fn new_from_xy(x: i16, y: i16, width: i16, height: i16) -> (rect: Self)
        ensures
            rect == (Rect { position: Point { x, y }, width, height }),
    {
        Rect::new(Point { x, y }, width, height)
    }

    pub fn intersects(&self, rect: &Rect) -> (overlap: bool)
        requires
            self.fits(),
            rect.fits(),
        ensures
            overlap == self.overlaps(*rect),
    {
        self.x() < rect.right() && self.right() > rect.x() && self.y() < rect.bottom()
            && self.bottom() > rect.y()
    }

    pub fn right(&self) -> (edge: i16)
        requires
            i16::MIN <= self.position.x + self.width <= i16::MAX,
        ensures
            edge == self.position.x + self.width,
    {
        self.x() + self.width
    }

    pub fn bottom(&self) -> (edge: i16)
        requires
            i16::MIN <= self.position.y + self.height <= i16::MAX,
        ensures
            edge == self.position.y + self.height,
    {
        self.y() + self.height
    }

    pub fn set_x(&mut self, x: i16)
        ensures
            *final(self) == old(self).at_x(x),
    {
        self.position.x = x
    }

    pub fn x(&self) -> (x: i16)
        ensures
            x == self.position.x,
    {
        self.position.x
    }

    pub fn y(&self) -> (y: i16)
        ensures
            y == self.position.y,
    {
        self.position.y
    }
}

/// A rectangle on a sprite sheet, as the sheet's description gives it.
#[derive(Clone, Copy, Debug, PartialEq, Eq, Structural)]
pub struct SheetRect {
    pub x: i16,
    pub y: i16,
    pub w: i16,
    pub h: i16,
}

/// One sprite of a sheet: where it lies on the sheet, and where it lies
/// within the untrimmed picture it was cut from.
#[derive(Clone, Copy, Debug, PartialEq, Eq, Structural)]
pub struct Cell {
    pub frame: SheetRect,
    pub sprite_source_size: SheetRect,
}

/// The sprites of a sheet, each under its name.
pub struct Sheet {
    pub frames: Vec<(String, Cell)>,
}

/// The first sprite among `frames` that goes by `name`.
pub open spec fn lookup(frames: Seq<(String, Cell)>, name: Seq<char>) -> Option<Cell>
    decreases frames.len(),
{
    if frames.len() == 0 {
        None
    } else if frames[0].0@ == name {
        Some(frames[0].1)
    } else {
        lookup(frames.drop_first(), name)
    }
}

impl Sheet {
    /// Finds a sprite by its name.
    pub fn cell(&self, name: &str) -> (cell: Option<&Cell>)
        ensures
            cell is Some <==> lookup(self.frames@, name@) is Some,
            cell matches Some(found) ==> *found == lookup(self.frames@, name@)->0,
    {
        let wanted = name.to_owned();
        let mut index: usize = 0;
        assert(self.frames@.skip(0) =~= self.frames@);
        while index < self.frames.len()
            invariant
                index <= self.frames.len(),
                wanted@ == name@,
                lookup(self.frames@, name@) == lookup(self.frames@.skip(index as int), name@),
            decreases self.frames.len() - index,
        {
            assert(self.frames@.skip(index as int).drop_first() =~= self.frames@.skip(index + 1));
            if self.frames[index].0 == wanted {
                return Some(&self.frames[index].1);
            }
            index += 1;
        }
        None
    }
}

/// The size of a loaded picture, in pixels.
#[derive(Clone, Copy, Debug, PartialEq, Eq, Structural)]
pub struct Picture {
    pub width: i16,
    pub height: i16,
}

/// A picture placed on the canvas.
#[derive(Clone, Copy, Debug, PartialEq, Eq)]
pub struct Image {
    element: Picture,
    bounding_box: Rect,
}

impl Image {
    /// The part of the canvas that the picture covers.
    pub closed spec fn bounds(&self) -> Rect {
        self.bounding_box
    }

    /// The picture that is shown.
    pub closed spec fn picture(&self) -> Picture {
        self.element
    }

    pub fn new(element: Picture, position: Point) -> (image: Self)
        ensures
            image.bounds() == (Rect { position, width: element.width, height: element.height }),
            image.picture() == element,
    {
        let bounding_box = Rect::new(position, element.width, element.height);
        Image { element, bounding_box }
    }

    pub fn element(&self) -> (picture: Picture)
        ensures
            picture == self.picture(),
    {
        self.element
    }

    pub fn bounding_box(&self) -> (bounds: &Rect)
        ensures
            *bounds == self.bounds(),
    {
        &self.bounding_box
    }

    pub fn move_horizontally(&mut self, distance: i16)
        requires
            i16::MIN <= old(self).bounds().position.x + distance <= i16::MAX,
        ensures
            final(self).bounds() == old(self).bounds().at_x(
                (old(self).bounds().position.x + distance) as i16,
            ),
            final(self).picture() == old(self).picture(),
    {
        self.set_x(self.bounding_box.x() + distance);
    }

    pub fn set_x(&mut self, x: i16)
        ensures
            final(self).bounds() == old(self).bounds().at_x(x),
            final(self).picture() == old(self).picture(),
    {
        self.bounding_box.set_x(x);
    }

    pub fn right(&self) -> (edge: i16)
        requires
            self.bounds().fits(),
        ensures
            edge == self.bounds().position.x + self.bounds().width,
    {
        self.bounding_box.right()
    }
}

/// The keys that are held down, by their codes.
pub struct KeyState {
    pub pressed_keys: Vec<String>,
}

impl KeyState {
    /// Whether the key with the given code is among the keys held down.
    pub open spec fn holds(&self, code: Seq<char>) -> bool {
        exists|i: int| 0 <= i < self.pressed_keys@.len() && (#[trigger] self.pressed_keys@[i])@ == code
    }

    pub fn is_pressed(&self, code: &str) -> (pressed: bool)
        ensures
            pressed == self.holds(code@),
    {
        let wanted = code.to_owned();
        let mut index: usize = 0;
        while index < self.pressed_keys.len()
            invariant
                index <= self.pressed_keys@.len(),
                wanted@ == code@,
                forall|i: int| 0 <= i < index ==> (#[trigger] self.pressed_keys@[i])@ != code@,
            decreases self.pressed_keys@.len() - index,
        {
            if self.pressed_keys[index] == wanted {
                return true;
            }
            index += 1;
        }
        false
    }
}

} // verus!
