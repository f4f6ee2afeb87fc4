//! The stretches of obstacles that the world is laid out with.

use crate::engine::{Image, Picture, Point, Rect, Sheet};
use crate::game::{
    named_sprites, outlines_of, placed_at, AnyObstacle, Barrier, Obstacle, Outline, Platform,
};
use vstd::prelude::*;

verus! {

pub const LOW_PLATFORM: i16 = 420;

pub const HIGH_PLATFORM: i16 = 375;

pub const FIRST_PLATFORM: i16 = 370;

pub const STONE_ON_GROUND: i16 = 546;

pub const PLATFORM_WIDTH: i16 = 384;

pub const PLATFORM_HEIGHT: i16 = 93;

pub const PLATFORM_EDGE_WIDTH: i16 = 60;

pub const PLATFORM_EDGE_HEIGHT: i16 = 54;

/// The names of the three tiles of a floating platform.
pub open spec fn floating_platform_sprites() -> Seq<Seq<char>> {
    seq!["13.png"@, "14.png"@, "15.png"@]
}

/// The boxes of a floating platform that stands at the origin: a shallow one
/// under each end and a deep one under the middle.
pub open spec fn floating_platform_boxes() -> Seq<Rect> {
    seq![
        Rect {
            position: Point { x: 0, y: 0 },
            width: PLATFORM_EDGE_WIDTH,
            height: PLATFORM_EDGE_HEIGHT,
        },
        Rect {
            position: Point { x: PLATFORM_EDGE_WIDTH, y: 0 },
            width: (PLATFORM_WIDTH - PLATFORM_EDGE_WIDTH * 2) as i16,
            height: PLATFORM_HEIGHT,
        },
        Rect {
            position: Point { x: (PLATFORM_WIDTH - PLATFORM_EDGE_WIDTH) as i16, y: 0 },
            width: PLATFORM_EDGE_WIDTH,
            height: PLATFORM_EDGE_HEIGHT,
        },
    ]
}

/// Whether a floating platform can stand at `position` with all its boxes on
/// the 16-bit grid.
pub open spec fn platform_fits_at(position: Point) -> bool {
    position.x + (PLATFORM_WIDTH - PLATFORM_EDGE_WIDTH) <= i16::MAX
}

/// A stone at `stone_at` and, after it in the list, a floating platform at
/// `platform_at`.
pub open spec fn stone_with_platform(
    stone: Picture,
    frames: Seq<(String, crate::engine::Cell)>,
    stone_at: Point,
    platform_at: Point,
) -> Seq<Outline> {
    seq![
        Outline::Stone {
            picture: stone,
            bounds: Rect { position: stone_at, width: stone.width, height: stone.height },
        },
        Outline::Ledge {
            position: platform_at,
            boxes: placed_at(floating_platform_boxes(), platform_at),
            tiles: named_sprites(frames, floating_platform_sprites()),
        },
    ]
}

/// A stone a short way in and a low platform behind it, `offset_x` pixels
/// from the left edge of the canvas.
pub fn stone_and_platform(stone: Picture, sprite_sheet: &Sheet, offset_x: i16) -> (obstacles: Vec<
    AnyObstacle,
>)
    requires
        offset_x + FIRST_PLATFORM + (PLATFORM_WIDTH - PLATFORM_EDGE_WIDTH) <= i16::MAX,
    ensures
        outlines_of(obstacles@) == stone_with_platform(
            stone,
            sprite_sheet.frames@,
            Point { x: (offset_x + 150) as i16, y: STONE_ON_GROUND },
            Point { x: (offset_x + FIRST_PLATFORM) as i16, y: LOW_PLATFORM },
        ),
{
    let initial_stone_offset: i16 = 150;
    let barrier = Barrier::new(
        Image::new(stone, Point { x: offset_x + initial_stone_offset, y: STONE_ON_GROUND }),
    );
    let platform = create_floating_platform(
        sprite_sheet,
        Point { x: offset_x + FIRST_PLATFORM, y: LOW_PLATFORM },
    );
    let obstacles = vec![AnyObstacle::Barrier(barrier), AnyObstacle::Platform(platform)];
    assert(outlines_of(obstacles@) =~= stone_with_platform(
        stone,
        sprite_sheet.frames@,
        Point { x: (offset_x + 150) as i16, y: STONE_ON_GROUND },
        Point { x: (offset_x + FIRST_PLATFORM) as i16, y: LOW_PLATFORM },
    ));
    obstacles
}

/// A floating platform at `position`, with its tiles taken from
/// `sprite_sheet`.
pub fn create_floating_platform(sprite_sheet: &Sheet, position: Point) -> (platform: Platform)
    requires
        platform_fits_at(position),
    ensures
        platform.outline() == (Outline::Ledge {
            position,
            boxes: placed_at(floating_platform_boxes(), position),
            tiles: named_sprites(sprite_sheet.frames@, floating_platform_sprites()),
        }),
{
    let sprites: [&str; 3] = ["13.png", "14.png", "15.png"];
    let boxes: [Rect; 3] = [
        Rect::new_from_xy(0, 0, PLATFORM_EDGE_WIDTH, PLATFORM_EDGE_HEIGHT),
        Rect::new_from_xy(
            PLATFORM_EDGE_WIDTH,
            0,
            PLATFORM_WIDTH - (PLATFORM_EDGE_WIDTH * 2),
            PLATFORM_HEIGHT,
        ),
        Rect::new_from_xy(
            PLATFORM_WIDTH - PLATFORM_EDGE_WIDTH,
            0,
            PLATFORM_EDGE_WIDTH,
            PLATFORM_EDGE_HEIGHT,
        ),
    ];
    assert(boxes@ =~= floating_platform_boxes());
    assert(sprites@.map_values(|name: &str| name@) =~= floating_platform_sprites());
    Platform::new(sprite_sheet, position, sprites.as_slice(), boxes.as_slice())
}

/// A high platform a short way in and a stone behind it, `offset_x` pixels
/// from the left edge of the canvas.
pub fn platform_and_stone(stone: Picture, sprite_sheet: &Sheet, offset_x: i16) -> (obstacles: Vec<
    AnyObstacle,
>)
    requires
        offset_x + 200 + (PLATFORM_WIDTH - PLATFORM_EDGE_WIDTH) <= i16::MAX,
    ensures
        outlines_of(obstacles@) == stone_with_platform(
            stone,
            sprite_sheet.frames@,
            Point { x: (offset_x + 400) as i16, y: STONE_ON_GROUND },
            Point { x: (offset_x + 200) as i16, y: HIGH_PLATFORM },
        ),
{
    let initial_stone_offset: i16 = 400;
    let initial_platform_offset: i16 = 200;
    let barrier = Barrier::new(
        Image::new(stone, Point { x: offset_x + initial_stone_offset, y: STONE_ON_GROUND }),
    );
    let platform = create_floating_platform(
        sprite_sheet,
        Point { x: offset_x + initial_platform_offset, y: HIGH_PLATFORM },
    );
    let obstacles = vec![AnyObstacle::Barrier(barrier), AnyObstacle::Platform(platform)];
    assert(outlines_of(obstacles@) =~= stone_with_platform(
        stone,
        sprite_sheet.frames@,
        Point { x: (offset_x + 400) as i16, y: STONE_ON_GROUND },
        Point { x: (offset_x + 200) as i16, y: HIGH_PLATFORM },
    ));
    obstacles
}

} // verus!
