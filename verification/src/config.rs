//! Where the other screen is.

use crate::coord;
use crate::coord::Coord;
use vstd::arithmetic::power2::*;
use vstd::prelude::*;

verus! {

/// The side of the local screen that the remote one sits on.
#[derive(Debug, Clone, Copy, PartialEq, Eq, Structural)]
pub enum Side {
    Left,
    Right,
    Top,
    Bottom,
}

/// The size of a screen, in pixels.
#[derive(Debug, Clone, Copy, PartialEq)]
pub struct Screen {
    pub width: Coord,
    pub height: Coord,
}

/// The remote screen: its size, in pixels, and where it is.
#[derive(Debug, Clone, Copy, PartialEq)]
pub struct Remote {
    pub width: Coord,
    pub height: Coord,
    pub side: Side,
}

/// The controller's configuration.
#[derive(Debug, Clone, PartialEq)]
pub struct Config {
    /// The address of the controlled machine.
    pub server: String,
    /// This machine's screen. Switching works on normalised coordinates and does not
    /// look at it.
    pub local: Screen,
    /// The controlled machine's screen.
    pub remote: Remote,
}

/// How near to an edge counts as at it, normalised: one thousandth.
pub const EDGE: u64 = 0x3F50_624D_D2F1_A9FC;

/// One less `EDGE`.
pub const FAR_EDGE: u64 = 0x3FEF_F7CE_D916_872B;

impl Remote {
    /// Neither side is negative or a NaN, so that positions can be kept within it.
    pub open spec fn has_area(&self) -> bool {
        let zero = Coord { bits: coord::ZERO };
        zero.le(self.width) && zero.le(self.height)
    }

    /// Whether positions can be kept within the screen.
    pub fn measurable(&self) -> (r: bool)
        ensures
            r == self.has_area(),
    {
        let zero = Coord { bits: coord::ZERO };
        zero.at_most(self.width) && zero.at_most(self.height)
    }
}

/// Where the cursor enters the remote screen from this local position: at the edge
/// that faces the local screen, at the same height (or width). `None` away from the
/// edge towards the remote screen.
pub open spec fn entry(side: Side, x: Coord, y: Coord) -> Option<(Coord, Coord)> {
    let near = Coord { bits: EDGE };
    let far = Coord { bits: FAR_EDGE };
    match side {
        Side::Right => if far.le(x) {
            Some((near, y))
        } else {
            None
        },
        Side::Left => if x.le(near) {
            Some((far, y))
        } else {
            None
        },
        Side::Bottom => if far.le(y) {
            Some((x, near))
        } else {
            None
        },
        Side::Top => if y.le(near) {
            Some((x, far))
        } else {
            None
        },
    }
}

/// Where the cursor enters the remote screen from this local position, if it does.
pub fn enter_point(side: Side, x: Coord, y: Coord) -> (r: Option<(Coord, Coord)>)
    ensures
        r == entry(side, x, y),
{
    let near = Coord { bits: EDGE };
    let far = Coord { bits: FAR_EDGE };
    match side {
        Side::Right => if far.at_most(x) {
            Some((near, y))
        } else {
            None
        },
        Side::Left => if x.at_most(near) {
            Some((far, y))
        } else {
            None
        },
        Side::Bottom => if far.at_most(y) {
            Some((x, near))
        } else {
            None
        },
        Side::Top => if y.at_most(near) {
            Some((x, far))
        } else {
            None
        },
    }
}

/// The cursor at this position, in the remote screen's pixels, is past the edge
/// towards the local screen.
pub open spec fn past_home_edge(side: Side, vx: Coord, vy: Coord, w: Coord, h: Coord) -> bool {
    let zero = Coord { bits: coord::ZERO };
    match side {
        Side::Right => vx.lt(zero),
        Side::Left => w.lt(vx),
        Side::Bottom => vy.lt(zero),
        Side::Top => h.lt(vy),
    }
}

/// Whether the cursor has gone back to the local screen.
pub fn left_remote(side: Side, vx: Coord, vy: Coord, w: Coord, h: Coord) -> (r: bool)
    ensures
        r == past_home_edge(side, vx, vy, w, h),
{
    let zero = Coord { bits: coord::ZERO };
    match side {
        Side::Right => vx.less(zero),
        Side::Left => w.less(vx),
        Side::Bottom => vy.less(zero),
        Side::Top => h.less(vy),
    }
}

/// A cursor that crosses over lands inside of the remote screen along the axis that it
/// crosses, and keeps its place along the other one.
pub proof fn entry_is_inside(side: Side, x: Coord, y: Coord)
    ensures
        entry(side, x, y) matches Some((ex, ey)) ==> {
            let zero = Coord { bits: coord::ZERO };
            let one = Coord { bits: coord::ONE };
            match side {
                Side::Right | Side::Left => ey == y && zero.lt(ex) && ex.lt(one),
                Side::Bottom | Side::Top => ex == x && zero.lt(ey) && ey.lt(one),
            }
        },
{
}

/// A position on the remote screen never hands control back, whichever side it is on.
pub proof fn inside_stays(side: Side, vx: Coord, vy: Coord, w: Coord, h: Coord)
    requires
        (Coord { bits: coord::ZERO }).le(vx),
        vx.le(w),
        (Coord { bits: coord::ZERO }).le(vy),
        vy.le(h),
    ensures
        !past_home_edge(side, vx, vy, w, h),
{
}

/// Entering never bounces straight back: the point of entry, times the size of the
/// remote screen and rounded, has not gone home, wherever on the local edge the cursor
/// crossed.
pub proof fn entering_never_bounces(
    side: Side,
    x: Coord,
    y: Coord,
    w: Coord,
    h: Coord,
    vx: Coord,
    vy: Coord,
)
    requires
        (Coord { bits: coord::ZERO }).le(w),
        w.is_finite(),
        (Coord { bits: coord::ZERO }).le(h),
        h.is_finite(),
        entry(side, x, y) matches Some((ex, ey)) && coord::is_product(ex, w, vx)
            && coord::is_product(ey, h, vy),
    ensures
        !past_home_edge(side, vx, vy, w, h),
{
    if let Some((ex, ey)) = entry(side, x, y) {
        match side {
            Side::Right | Side::Left => coord::part_is_within(ex, w, vx),
            Side::Bottom | Side::Top => coord::part_is_within(ey, h, vy),
        }
    }
}

/// Control crosses over exactly at the edge towards the remote screen, along all of it:
/// at the last thousandth of the local screen on that side, whatever the other
/// coordinate is.
pub proof fn crossing_is_at_the_edge(side: Side, x: Coord, y: Coord)
    ensures
        side == Side::Right ==> (entry(side, x, y) is Some <==> (Coord { bits: FAR_EDGE }).le(x)),
        side == Side::Left ==> (entry(side, x, y) is Some <==> x.le(Coord { bits: EDGE })),
        side == Side::Bottom ==> (entry(side, x, y) is Some <==> (Coord { bits: FAR_EDGE }).le(y)),
        side == Side::Top ==> (entry(side, x, y) is Some <==> y.le(Coord { bits: EDGE })),
{
}

/// The cursor comes in at the opposite edge: what is the far edge of one screen is the
/// near edge of the other. The other coordinate is kept.
pub proof fn crossing_is_to_the_opposite_edge(side: Side, x: Coord, y: Coord)
    ensures
        entry(side, x, y) matches Some((ex, ey)) ==> {
            let near = Coord { bits: EDGE };
            let far = Coord { bits: FAR_EDGE };
            &&& side == Side::Right ==> ex == near && ey == y
            &&& side == Side::Left ==> ex == far && ey == y
            &&& side == Side::Bottom ==> ex == x && ey == near
            &&& side == Side::Top ==> ex == x && ey == far
        },
{
}

/// The two edges are a thousandth, and one less a thousandth, to within what a binary64
/// can tell: a thousand times as much is off by less than one part in 2^52.
pub proof fn edges_are_a_thousandth()
    ensures
        ({
            let one = (Coord { bits: coord::ONE }).value();
            let near = 1000 * (Coord { bits: EDGE }).value() - one;
            let far = 1000 * (Coord { bits: FAR_EDGE }).value() - 999 * one;
            &&& -one < near * 0x10_0000_0000_0000 < one
            &&& -1000 * one < far * 0x10_0000_0000_0000 < 1000 * one
        }),
{
    lemma2_to64();
    lemma2_to64_rest();
    let base = pow2(1012);
    lemma_pow2_pos(1012);
    lemma_pow2_adds(1012, 9);
    lemma_pow2_adds(1012, 62);
    coord::named_numbers();
    let (e, f) = (Coord { bits: EDGE }, Coord { bits: FAR_EDGE });
    assert(e.value() == 0x10_624D_D2F1_A9FC * base);
    assert(f.value() == 0x1F_F7CE_D916_872B * (512 * base));
    assert((Coord { bits: coord::ONE }).value() == 0x4000_0000_0000_0000 * base);
    assert(pow2(1012) == base);
}

/// The cursor goes home past the one edge that faces the local screen, by however
/// little, and past no other: a remote screen on the right is left on its left, one on
/// the left on its right, one below at its top and one above at its bottom.
pub proof fn home_is_one_edge(side: Side, vx: Coord, vy: Coord, w: Coord, h: Coord)
    ensures
        ({
            let zero = Coord { bits: coord::ZERO };
            let past = past_home_edge(side, vx, vy, w, h);
            &&& vx.lt(zero) && side == Side::Right ==> past
            &&& w.lt(vx) && side == Side::Left ==> past
            &&& vy.lt(zero) && side == Side::Bottom ==> past
            &&& h.lt(vy) && side == Side::Top ==> past
            &&& past && side == Side::Right ==> vx.lt(zero)
            &&& past && side == Side::Left ==> w.lt(vx)
            &&& past && side == Side::Bottom ==> vy.lt(zero)
            &&& past && side == Side::Top ==> h.lt(vy)
        }),
{
}

/// A screen has an area exactly if neither side is below zero or a NaN.
pub proof fn area_is_not_negative(r: Remote)
    ensures
        r.has_area() <==> !r.width.is_nan() && !r.height.is_nan() && !r.width.lt(
            Coord { bits: coord::ZERO },
        ) && !r.height.lt(Coord { bits: coord::ZERO }),
{
}

} // verus!
