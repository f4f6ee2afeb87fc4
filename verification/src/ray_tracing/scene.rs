//! The layout of the scene: which spheres it holds and in what order.

use vstd::prelude::*;

verus! {

/// The grid of small spheres reaches this far from the origin in both
/// directions.
pub const GRID_REACH: i32 = 11;

/// One sphere of the scene, by the role it plays.
#[derive(Clone, Copy, Debug, PartialEq, Eq, Structural)]
pub enum Slot {
    /// The very large sphere that serves as the ground.
    Ground,
    /// A small sphere near the grid point `(a, b)`; its place within the cell
    /// and its material are drawn at random.
    Small { a: i32, b: i32 },
    /// The large glass sphere at the center.
    Glass,
    /// The large brown diffuse sphere behind it.
    Diffuse,
    /// The large metal sphere in front of it.
    Metal,
}

/// Grid points along one axis.
pub const GRID_SIDE: i32 = 2 * GRID_REACH + 1;

/// The scene in order: the ground, then the small spheres row by row over
/// the grid, then the three large spheres.
pub open spec fn layout() -> Seq<Slot> {
    seq![Slot::Ground] + Seq::new(
        (GRID_SIDE * GRID_SIDE) as nat,
        |k: int|
            Slot::Small {
                a: (k / (GRID_SIDE as int) - GRID_REACH) as i32,
                b: (k % (GRID_SIDE as int) - GRID_REACH) as i32,
            },
    ) + seq![Slot::Glass, Slot::Diffuse, Slot::Metal]
}

/// Lists the spheres of the scene in the order in which they enter the
/// world.
pub fn scene_plan() -> (plan: Vec<Slot>)
    ensures
        plan@ == layout(),
{
    let mut plan: Vec<Slot> = Vec::new();
    plan.push(Slot::Ground);
    let mut a: i32 = -GRID_REACH;
    while a <= GRID_REACH
        invariant
            -GRID_REACH <= a <= GRID_REACH + 1,
            plan@.len() == 1 + (a + 11) * 23,
            forall|i: int| 0 <= i < plan@.len() ==> plan@[i] == layout()[i],
        decreases GRID_REACH + 1 - a,
    {
        let mut b: i32 = -GRID_REACH;
        while b <= GRID_REACH
            invariant
                -GRID_REACH <= a <= GRID_REACH,
                -GRID_REACH <= b <= GRID_REACH + 1,
                plan@.len() == 1 + (a + 11) * 23 + (b + 11),
                forall|i: int| 0 <= i < plan@.len() ==> plan@[i] == layout()[i],
            decreases GRID_REACH + 1 - b,
        {
            proof {
                let k = (a + 11) * 23 + (b + 11);
                assert(0 <= k < 529);
                assert(k / 23 == a + 11 && k % 23 == b + 11);
                assert(layout()[1 + k] == Slot::Small { a, b });
            }
            plan.push(Slot::Small { a, b });
            b += 1;
        }
        a += 1;
    }
    plan.push(Slot::Glass);
    plan.push(Slot::Diffuse);
    plan.push(Slot::Metal);
    assert(plan@ =~= layout());
    plan
}

} // verus!
