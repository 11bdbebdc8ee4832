//! Axis-aligned zones of the drawing surface.

use crate::scalar::{mag, Scalar, UNIT};
use vstd::prelude::*;

verus! {

/// A point or an extent in the plane.
#[derive(Clone, Copy, Debug, PartialEq, Eq, Structural)]
pub struct Vec2 {
    pub x: Scalar,
    pub y: Scalar,
}

impl Vec2 {
    /// The vector with the given coordinates.
    pub fn new(x: Scalar, y: Scalar) -> (r: Vec2)
        ensures
            r == (Vec2 { x, y }),
    {
        Vec2 { x, y }
    }
}

/// An axis-aligned rectangle, held as its centre `m` and its `size`.
///
/// The low edges lie half the size (rounded toward zero) below the centre, the high edges
/// one size above the low ones. A zone marked `empty` stands for nothing drawn yet; it
/// contributes nothing to a merge.
#[derive(Clone, Copy, Debug, PartialEq, Eq, Structural)]
pub struct DrawZone {
    pub m: Vec2,
    pub size: Vec2,
    pub empty: bool,
}

/// The zone spanned by two opposite corners.
pub open spec fn rect(bottom_left: Vec2, top_right: Vec2) -> DrawZone {
    let width = top_right.x.minus(bottom_left.x);
    let height = top_right.y.minus(bottom_left.y);
    DrawZone {
        m: Vec2 { x: bottom_left.x.plus(width.half()), y: bottom_left.y.plus(height.half()) },
        size: Vec2 { x: width, y: height },
        empty: false,
    }
}

/// The largest zone of the given aspect (width over height) that has the centre of `zone`
/// and fits in it: the axis that is too long is shortened. An aspect that is not above zero
/// leaves the zone as it is.
pub open spec fn constrained(zone: DrawZone, aspect: Scalar) -> DrawZone {
    if aspect@ <= 0 {
        zone
    } else if zone.size.x@ > zone.size.y.times(aspect)@ {
        DrawZone {
            m: zone.m,
            size: Vec2 { x: zone.size.y.times(aspect), y: zone.size.y },
            empty: zone.empty,
        }
    } else {
        DrawZone {
            m: zone.m,
            size: Vec2 { x: zone.size.x, y: zone.size.x.over(aspect) },
            empty: zone.empty,
        }
    }
}

/// The smallest zone that holds both `a` and `b`; an empty zone holds nothing.
pub open spec fn merged(a: DrawZone, b: DrawZone) -> DrawZone {
    if b.empty {
        a
    } else if a.empty {
        b
    } else {
        rect(
            Vec2 { x: a.left().min(b.left()), y: a.bottom().min(b.bottom()) },
            Vec2 { x: a.right().max(b.right()), y: a.top().max(b.top()) },
        )
    }
}

/// The zone with the centre of `zone` and its extents multiplied by `factor`.
pub open spec fn scaled(zone: DrawZone, factor: Scalar) -> DrawZone {
    DrawZone {
        m: zone.m,
        size: Vec2 { x: zone.size.x.times(factor), y: zone.size.y.times(factor) },
        empty: false,
    }
}

/// The zone with the centre of `zone` and its extents divided by `factor`.
pub open spec fn unscaled(zone: DrawZone, factor: Scalar) -> DrawZone {
    DrawZone {
        m: zone.m,
        size: Vec2 { x: zone.size.x.over(factor), y: zone.size.y.over(factor) },
        empty: zone.empty,
    }
}

/// A point lies in a zone when its distance from the centre is at most half the size on
/// both axes.
pub open spec fn within(zone: DrawZone, x: Scalar, y: Scalar) -> bool {
    &&& mag(zone.m.x.minus(x)@) <= zone.size.x.half()@
    &&& mag(zone.m.y.minus(y)@) <= zone.size.y.half()@
}

impl DrawZone {
    pub open spec fn spec_left(&self) -> Scalar {
        self.m.x.minus(self.size.x.half())
    }

    pub open spec fn spec_right(&self) -> Scalar {
        self.spec_left().plus(self.size.x)
    }

    pub open spec fn spec_bottom(&self) -> Scalar {
        self.m.y.minus(self.size.y.half())
    }

    pub open spec fn spec_top(&self) -> Scalar {
        self.spec_bottom().plus(self.size.y)
    }

    pub open spec fn spec_bottom_left(&self) -> Vec2 {
        Vec2 { x: self.spec_left(), y: self.spec_bottom() }
    }

    pub open spec fn spec_top_right(&self) -> Vec2 {
        Vec2 { x: self.spec_right(), y: self.spec_top() }
    }

    pub open spec fn spec_aspect(&self) -> Scalar {
        self.size.x.over(self.size.y)
    }

    pub open spec fn spec_constraint_to_aspect(&self, aspect: Scalar) -> DrawZone {
        constrained(*self, aspect)
    }

    pub open spec fn spec_contains(&self, x: Scalar, y: Scalar) -> bool {
        within(*self, x, y)
    }

    /// Whether both extents are at least zero.
    pub open spec fn well_formed(&self) -> bool {
        self.size.x@ >= 0 && self.size.y@ >= 0
    }

    pub open spec fn spec_new_empty() -> DrawZone {
        DrawZone {
            m: Vec2 { x: Scalar::of(0), y: Scalar::of(0) },
            size: Vec2 { x: Scalar::of(0), y: Scalar::of(0) },
            empty: true,
        }
    }

    /// The zone that stands for nothing drawn yet.
    #[verifier::when_used_as_spec(spec_new_empty)]
    pub fn new_empty() -> (r: DrawZone)
        ensures
            r == DrawZone::spec_new_empty(),
    {
        DrawZone {
            m: Vec2 { x: Scalar::zero(), y: Scalar::zero() },
            size: Vec2 { x: Scalar::zero(), y: Scalar::zero() },
            empty: true,
        }
    }

    /// The low edge in x: the centre less half the width.
    #[verifier::when_used_as_spec(spec_left)]
    pub fn left(&self) -> (r: Scalar)
        ensures
            r == self.spec_left(),
    {
        self.m.x.minus(self.size.x.half())
    }

    /// The high edge in x: the low edge plus the width.
    #[verifier::when_used_as_spec(spec_right)]
    pub fn right(&self) -> (r: Scalar)
        ensures
            r == self.spec_right(),
    {
        self.left().plus(self.size.x)
    }

    /// The low edge in y: the centre less half the height.
    #[verifier::when_used_as_spec(spec_bottom)]
    pub fn bottom(&self) -> (r: Scalar)
        ensures
            r == self.spec_bottom(),
    {
        self.m.y.minus(self.size.y.half())
    }

    /// The high edge in y: the low edge plus the height.
    #[verifier::when_used_as_spec(spec_top)]
    pub fn top(&self) -> (r: Scalar)
        ensures
            r == self.spec_top(),
    {
        self.bottom().plus(self.size.y)
    }

    /// The corner with the low coordinates.
    #[verifier::when_used_as_spec(spec_bottom_left)]
    pub fn bottom_left(&self) -> (r: Vec2)
        ensures
            r == self.spec_bottom_left(),
    {
        Vec2 { x: self.left(), y: self.bottom() }
    }

    /// The corner with the high coordinates.
    #[verifier::when_used_as_spec(spec_top_right)]
    pub fn top_right(&self) -> (r: Vec2)
        ensures
            r == self.spec_top_right(),
    {
        Vec2 { x: self.right(), y: self.top() }
    }

    /// The zone spanned by two opposite corners: its size is their difference, its centre
    /// lies half the size above the first.
    pub fn from_rect(bottom_left: Vec2, top_right: Vec2) -> (r: DrawZone)
        ensures
            r == rect(bottom_left, top_right),
    {
        let width = top_right.x.minus(bottom_left.x);
        let height = top_right.y.minus(bottom_left.y);
        DrawZone {
            m: Vec2 { x: bottom_left.x.plus(width.half()), y: bottom_left.y.plus(height.half()) },
            size: Vec2 { x: width, y: height },
            empty: false,
        }
    }

    /// Width over height.
    #[verifier::when_used_as_spec(spec_aspect)]
    pub fn aspect(&self) -> (r: Scalar)
        ensures
            r == self.spec_aspect(),
    {
        self.size.x.over(self.size.y)
    }

    /// The largest zone of the given aspect with the same centre that fits in this one.
    #[verifier::when_used_as_spec(spec_constraint_to_aspect)]
    pub fn constraint_to_aspect(&self, aspect: Scalar) -> (r: DrawZone)
        ensures
            r == constrained(*self, aspect),
    {
        if aspect.micros <= 0 {
            *self
        } else {
            let wide = self.size.y.times(aspect);
            if self.size.x.micros > wide.micros {
                DrawZone { m: self.m, size: Vec2 { x: wide, y: self.size.y }, empty: self.empty }
            } else {
                DrawZone {
                    m: self.m,
                    size: Vec2 { x: self.size.x, y: self.size.x.over(aspect) },
                    empty: self.empty,
                }
            }
        }
    }

    /// Grows the zone until it holds `other` too.
    pub fn merge_grow(&mut self, other: &DrawZone)
        ensures
            *final(self) == merged(*old(self), *other),
    {
        if other.empty {
        } else if self.empty {
            *self = *other;
        } else {
            let low = Vec2 { x: self.left().min(other.left()), y: self.bottom().min(other.bottom()) };
            let high = Vec2 { x: self.right().max(other.right()), y: self.top().max(other.top()) };
            *self = DrawZone::from_rect(low, high);
        }
    }

    /// The zone with the same centre and its extents multiplied by `factor`.
    pub fn scale(&self, factor: Scalar) -> (r: DrawZone)
        ensures
            r == scaled(*self, factor),
    {
        DrawZone {
            m: self.m,
            size: Vec2 { x: self.size.x.times(factor), y: self.size.y.times(factor) },
            empty: false,
        }
    }

    /// The zone with the same centre and its extents divided by `factor`.
    pub fn unscale(&self, factor: Scalar) -> (r: DrawZone)
        ensures
            r == unscaled(*self, factor),
    {
        DrawZone {
            m: self.m,
            size: Vec2 { x: self.size.x.over(factor), y: self.size.y.over(factor) },
            empty: self.empty,
        }
    }

    /// Whether the point lies within half the size of the centre on both axes.
    #[verifier::when_used_as_spec(spec_contains)]
    pub fn contains(&self, x: Scalar, y: Scalar) -> (r: bool)
        ensures
            r == within(*self, x, y),
    {
        let dx = self.m.x.minus(x);
        let dy = self.m.y.minus(y);
        let hx = self.size.x.half();
        let hy = self.size.y.half();
        // a distance of the least number has no positive counterpart, and is above any half
        let in_x = if dx.micros >= 0 {
            dx.micros <= hx.micros
        } else {
            dx.micros > i64::MIN && -dx.micros <= hx.micros
        };
        let in_y = if dy.micros >= 0 {
            dy.micros <= hy.micros
        } else {
            dy.micros > i64::MIN && -dy.micros <= hy.micros
        };
        in_x && in_y
    }
}

/// Whether the zone's extents are not below zero and its coordinates small enough that no
/// edge is clamped.
pub open spec fn moderate(zone: DrawZone) -> bool {
    &&& zone.well_formed()
    &&& -0x1000_0000_0000_0000 <= zone.m.x@ <= 0x1000_0000_0000_0000
    &&& -0x1000_0000_0000_0000 <= zone.m.y@ <= 0x1000_0000_0000_0000
    &&& zone.size.x@ <= 0x1000_0000_0000_0000
    &&& zone.size.y@ <= 0x1000_0000_0000_0000
}

/// Constraining a zone whose extents are not below zero to an aspect above zero keeps the
/// centre, shortens at most one axis and lengthens none, and leaves the extents in the asked
/// proportion up to the rounding of one division.
pub proof fn law_constraint_to_aspect(zone: DrawZone, aspect: Scalar)
    requires
        zone.well_formed(),
        aspect@ > 0,
    ensures
        ({
            let r = constrained(zone, aspect);
            &&& r.m == zone.m
            &&& 0 <= r.size.x@ <= zone.size.x@
            &&& 0 <= r.size.y@ <= zone.size.y@
            &&& r.size.x == zone.size.x || r.size.y == zone.size.y
            &&& r.size.y == zone.size.y ==> r.size.x@ * UNIT <= r.size.y@ * aspect@
            &&& r.size.x == zone.size.x ==> r.size.y@ * aspect@ <= r.size.x@ * UNIT
            &&& r.size.x != zone.size.x ==> r.size.y@ * aspect@ < (r.size.x@ + 1) * UNIT
            &&& r.size.y != zone.size.y ==> r.size.x@ * UNIT < (r.size.y@ + 1) * aspect@
        }),
{
    let x = zone.size.x@;
    let y = zone.size.y@;
    let a = aspect@;
    let u = UNIT as int;
    let p = (y * a) / u;
    let q = (x * u) / a;
    assert(0 <= y * a && 0 <= x * u) by (nonlinear_arith)
        requires
            x >= 0 && y >= 0 && a > 0 && u > 0,
    ;
    assert(p * u <= y * a < (p + 1) * u && 0 <= p) by (nonlinear_arith)
        requires
            p == (y * a) / u,
            u > 0,
            0 <= y * a,
    ;
    assert(q * a <= x * u < (q + 1) * a && 0 <= q) by (nonlinear_arith)
        requires
            q == (x * u) / a,
            a > 0,
            0 <= x * u,
    ;
    if x > zone.size.y.times(aspect)@ {
        // the product was not clamped, for it is below `x`
        assert(zone.size.y.times(aspect)@ == p);
    } else {
        assert(x * u <= y * a) by (nonlinear_arith)
            requires
                x <= p,
                p * u <= y * a,
                u > 0,
        ;
        assert(q <= y) by (nonlinear_arith)
            requires
                q * a <= x * u,
                x * u <= y * a,
                a > 0,
                0 <= q,
                0 <= y,
        ;
        assert(zone.size.x.over(aspect)@ == q);
    }
}

/// The zone spanned by two corners has them as its corners again, where the first is not
/// above the second and the coordinates are far from the ends of the number range.
pub proof fn law_rect_corners(bottom_left: Vec2, top_right: Vec2)
    requires
        -0x2000_0000_0000_0000 <= bottom_left.x@ <= top_right.x@ <= 0x2000_0000_0000_0000,
        -0x2000_0000_0000_0000 <= bottom_left.y@ <= top_right.y@ <= 0x2000_0000_0000_0000,
    ensures
        ({
            let r = rect(bottom_left, top_right);
            &&& r.well_formed()
            &&& r.bottom_left() == bottom_left
            &&& r.top_right() == top_right
        }),
{
}

/// The merge of two moderate zones that are not empty is a zone whose edges are the
/// outermost of theirs: it holds both, and no smaller zone does.
pub proof fn law_merge_bounds(a: DrawZone, b: DrawZone)
    requires
        moderate(a),
        moderate(b),
        !a.empty,
        !b.empty,
    ensures
        ({
            let r = merged(a, b);
            &&& !r.empty
            &&& r.well_formed()
            &&& r.left() == a.left().min(b.left())
            &&& r.bottom() == a.bottom().min(b.bottom())
            &&& r.right() == a.right().max(b.right())
            &&& r.top() == a.top().max(b.top())
        }),
{
    law_rect_corners(
        Vec2 { x: a.left().min(b.left()), y: a.bottom().min(b.bottom()) },
        Vec2 { x: a.right().max(b.right()), y: a.top().max(b.top()) },
    );
}

} // verus!
