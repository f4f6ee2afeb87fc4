//! The render driver's decisions: the order in which pixels are produced and
//! what becomes of a ray after each bounce.

use vstd::arithmetic::div_mod::{
    lemma_fundamental_div_mod, lemma_fundamental_div_mod_converse, lemma_mod_bound,
    lemma_multiply_divide_lt,
};
use vstd::arithmetic::mul::lemma_mul_is_commutative;
use vstd::prelude::*;

verus! {

/// A pixel's place on the image plane: its column counted from the left edge
/// and its row counted from the bottom edge.
#[derive(Clone, Copy, Debug, PartialEq, Eq, Structural)]
pub struct Place {
    pub column: u64,
    pub row: u64,
}

/// The column of the pixel that is produced as number `index`.
pub open spec fn column_at(width: nat, index: nat) -> nat {
    index % width
}

/// The row, counted from the bottom, of the pixel that is produced as number
/// `index`.
pub open spec fn row_at(width: nat, height: nat, index: nat) -> int {
    height - 1 - index / width
}

/// The number under which the pixel at `column` and `row` is produced.
pub open spec fn index_of(width: nat, height: nat, column: nat, row: nat) -> int {
    (height - 1 - row) * width + column
}

/// The place of the pixel that is produced as number `index`: rows run from
/// the top of the image to its bottom, and each row from left to right.
pub fn pixel_at(width: u64, height: u64, index: u64) -> (place: Place)
    requires
        index < width * height,
    ensures
        place.column == column_at(width as nat, index as nat),
        place.row == row_at(width as nat, height as nat, index as nat),
        place.column < width,
        place.row < height,
{
    proof {
        lemma_multiply_divide_lt(index as int, width as int, height as int);
        lemma_mod_bound(index as int, width as int);
    }
    Place { column: index % width, row: height - 1 - index / width }
}

/// The driver walks the rows from top to bottom and each row from left to
/// right: of two pixels, the one produced first lies in a higher row, or in
/// the same row further left.
pub proof fn lemma_scan_order(width: nat, height: nat, first: nat, second: nat)
    requires
        first < second < width * height,
    ensures
        row_at(width, height, first) > row_at(width, height, second) || (row_at(
            width,
            height,
            first,
        ) == row_at(width, height, second) && column_at(width, first) < column_at(width, second)),
{
    let w = width as int;
    lemma_fundamental_div_mod(first as int, w);
    lemma_fundamental_div_mod(second as int, w);
    lemma_mod_bound(first as int, w);
    lemma_mod_bound(second as int, w);
    let a = first as int / w;
    let b = second as int / w;
    if a > b {
        assert(w * a >= w * (b + 1)) by (nonlinear_arith)
            requires
                a >= b + 1,
                w > 0,
        ;
        assert(w * (b + 1) == w * b + w) by (nonlinear_arith);
    }
}

/// Every pixel of the image is produced, under exactly one number.
pub proof fn lemma_scan_covers(width: nat, height: nat, column: nat, row: nat)
    requires
        column < width,
        row < height,
    ensures
        0 <= index_of(width, height, column, row) < width * height,
        column_at(width, index_of(width, height, column, row) as nat) == column,
        row_at(width, height, index_of(width, height, column, row) as nat) == row,
{
    let w = width as int;
    let q = height - 1 - row;
    let index = index_of(width, height, column, row);
    assert(0 <= q * w && q * w + w <= height * w) by (nonlinear_arith)
        requires
            0 <= q <= height - 1,
            w > 0,
    ;
    lemma_mul_is_commutative(width as int, height as int);
    lemma_fundamental_div_mod_converse(index, w, q, column as int);
}

/// What the world and the struck surface answer when a ray is cast.
#[derive(Clone, Copy, Debug, PartialEq, Eq, Structural)]
pub enum Probe {
    /// The ray leaves the scene without striking anything.
    Miss,
    /// The ray strikes a surface that swallows it.
    Absorbed,
    /// The ray strikes a surface that sends a tinted ray onward.
    Scattered,
}

/// How the color of a ray is obtained.
#[derive(Clone, Copy, Debug, PartialEq, Eq, Structural)]
pub enum Shade {
    /// The ray contributes no light.
    Black,
    /// The ray takes the color of the sky in its direction.
    Sky,
    /// The ray takes the surface's attenuation times the color of the
    /// scattered ray, which is traced with `depth` bounces left.
    Attenuated { depth: u64 },
}

/// The shading rule: a ray without bounces left is black whatever it would
/// strike; otherwise a miss shows the sky, an absorbed ray is black, and a
/// scattered ray is followed with one bounce fewer.
pub open spec fn shade_of(depth: u64, probe: Probe) -> Shade {
    if depth == 0 {
        Shade::Black
    } else {
        match probe {
            Probe::Miss => Shade::Sky,
            Probe::Absorbed => Shade::Black,
            Probe::Scattered => Shade::Attenuated { depth: (depth - 1) as u64 },
        }
    }
}

/// Whether the bounce budget is used up, so that the ray is black and the
/// world need not be asked.
pub fn exhausted(depth: u64) -> (spent: bool)
    ensures
        spent <==> depth == 0,
        spent ==> forall|probe: Probe| shade_of(depth, probe) == Shade::Black,
{
    depth == 0
}

/// Decides how a ray with `depth` bounces left is colored, given what the
/// world answered.
pub fn ray_color(depth: u64, probe: Probe) -> (shade: Shade)
    ensures
        shade == shade_of(depth, probe),
        depth == 0 ==> shade == Shade::Black,
        shade matches Shade::Attenuated { depth: rest } ==> rest < depth,
{
    if depth == 0 {
        return Shade::Black;
    }
    match probe {
        Probe::Miss => Shade::Sky,
        Probe::Absorbed => Shade::Black,
        Probe::Scattered => Shade::Attenuated { depth: depth - 1 },
    }
}

/// The line that reports progress while `row` rows are still to be scanned.
pub fn progress_line(row: u64) -> (text: String)
    ensures
        text@ == "Scan lines remaining: "@ + crate::decimal::decimal(row as nat),
{
    let mut text = String::new();
    vstd::string::StringExecFns::append(&mut text, "Scan lines remaining: ");
    crate::decimal::push_decimal(&mut text, row);
    text
}

} // verus!
