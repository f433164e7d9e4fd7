//! Axis-aligned rectangles and the fixed-point scaling helper used by the
//! physics integration.

use vstd::prelude::*;
use vstd::arithmetic::div_mod::lemma_div_pos_is_pos;
use vstd::arithmetic::div_mod::lemma_div_is_ordered;

verus! {

/// An axis-aligned box in world coordinates, position of the top-left corner
/// plus extent, all in sub-units.
#[derive(Clone, Copy, PartialEq, Eq, Structural, Debug)]
pub struct Rect {
    pub x: i64,
    pub y: i64,
    pub w: i64,
    pub h: i64,
}

/// Mathematical shadow of [`Rect`] used by specifications.
#[verifier::ext_equal]
pub ghost struct RectV {
    pub x: int,
    pub y: int,
    pub w: int,
    pub h: int,
}

impl View for Rect {
    type V = RectV;

    open spec fn view(&self) -> RectV {
        RectV { x: self.x as int, y: self.y as int, w: self.w as int, h: self.h as int }
    }
}

impl Rect {
    /// Builds a rectangle from its corner and extent.
    pub fn new(x: i64, y: i64, w: i64, h: i64) -> (r: Rect)
        ensures
            r@ == (RectV { x: x as int, y: y as int, w: w as int, h: h as int }),
    {
        Rect { x, y, w, h }
    }
}

/// Coordinates small enough that edge sums cannot overflow an `i64`.
pub open spec fn in_box_range(r: RectV) -> bool {
    -0x1000_0000_0000_0000 <= r.x <= 0x1000_0000_0000_0000
        && -0x1000_0000_0000_0000 <= r.y <= 0x1000_0000_0000_0000
        && -0x1000_0000_0000_0000 <= r.w <= 0x1000_0000_0000_0000
        && -0x1000_0000_0000_0000 <= r.h <= 0x1000_0000_0000_0000
}

/// Two boxes overlap when they share interior area on both axes; touching
/// edges do not count.
pub open spec fn overlaps(a: RectV, b: RectV) -> bool {
    a.x < b.x + b.w && a.x + a.w > b.x && a.y < b.y + b.h && a.y + a.h > b.y
}

/// AABB overlap test.
pub fn rect_intersect(a: &Rect, b: &Rect) -> (r: bool)
    requires
        in_box_range(a@),
        in_box_range(b@),
    ensures
        r == overlaps(a@, b@),
{
    a.x < b.x + b.w && a.x + a.w > b.x && a.y < b.y + b.h && a.y + a.h > b.y
}

/// View of a sequence of rectangles.
pub open spec fn rects_view(s: Seq<Rect>) -> Seq<RectV> {
    s.map_values(|t: Rect| t@)
}

/// View of an optional rectangle.
pub open spec fn opt_rect_view(o: Option<Rect>) -> Option<RectV> {
    match o {
        Some(r) => Some(r@),
        None => None,
    }
}

/// `v * f / 1000`, truncated toward zero; the shape of every fixed-point
/// scaling in the simulation (`f` is a time delta in milliseconds or a blend
/// factor in thousandths).
pub open spec fn scaled(v: int, f: int) -> int {
    if v >= 0 {
        (v * f) / 1000
    } else {
        -(((-v) * f) / 1000)
    }
}

/// The scaled value keeps the sign of `v` and for factors up to 1000 its
/// magnitude never exceeds `v`'s.
pub proof fn lemma_scaled_bounds(v: int, f: int)
    requires
        0 <= f <= 1000,
    ensures
        v >= 0 ==> 0 <= scaled(v, f) <= v,
        v < 0 ==> v <= scaled(v, f) <= 0,
{
    let m: int = if v >= 0 { v } else { -v };
    assert(m * f <= m * 1000) by (nonlinear_arith)
        requires 0 <= f <= 1000, m >= 0;
    assert(m * f >= 0) by (nonlinear_arith)
        requires f >= 0, m >= 0;
    lemma_div_pos_is_pos(m * f, 1000);
    lemma_div_is_ordered(m * f, m * 1000, 1000);
    assert((m * 1000) / 1000 == m) by (nonlinear_arith);
}

/// Executable form of [`scaled`].
pub fn scale_i64(v: i64, f: i64) -> (r: i64)
    requires
        0 <= f <= 1000,
        -0x4000_0000_0000 <= v <= 0x4000_0000_0000,
    ensures
        r == scaled(v as int, f as int),
        v >= 0 ==> 0 <= r <= v,
        v < 0 ==> v <= r <= 0,
{
    proof {
        lemma_scaled_bounds(v as int, f as int);
    }
    if v >= 0 {
        let p: u64 = (v as u64) * (f as u64);
        (p / 1000) as i64
    } else {
        let m: i64 = -v;
        let p: u64 = (m as u64) * (f as u64);
        -((p / 1000) as i64)
    }
}

} // verus!
