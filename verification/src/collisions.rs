use vstd::prelude::*;
use crate::geometry::Rect;

verus! {

/// The single side of the static obstacle that a moving body has struck.
/// Mutually exclusive: a collision is classified as exactly one side.
#[derive(Clone, Copy, Debug, PartialEq, Eq, Structural)]
pub enum SideCollided {
    Top,
    Bottom,
    Left,
    Right,
}

/// Twice the difference of the two rectangles' center x coordinates
/// (doubling keeps the arithmetic in the integers; every comparison below
/// is invariant under the common scale factor).
pub open spec fn center_dx2(a: Rect, b: Rect) -> int {
    (2 * a.x + a.w) - (2 * b.x + b.w)
}

/// Twice the difference of the two rectangles' center y coordinates.
pub open spec fn center_dy2(a: Rect, b: Rect) -> int {
    (2 * a.y + a.h) - (2 * b.y + b.h)
}

/// Twice the combined half-width of the two rectangles.
pub open spec fn width_sum(a: Rect, b: Rect) -> int {
    a.w + b.w
}

/// Twice the combined half-height of the two rectangles.
pub open spec fn height_sum(a: Rect, b: Rect) -> int {
    a.h + b.h
}

/// The overlap test: the centers are no farther apart than the combined
/// half-extents on both axes.  Non-strict on both axes, so rectangles that
/// exactly touch still count as colliding.
pub open spec fn overlaps(a: Rect, b: Rect) -> bool {
    &&& -width_sum(a, b) <= center_dx2(a, b) <= width_sum(a, b)
    &&& -height_sum(a, b) <= center_dy2(a, b) <= height_sum(a, b)
}

/// Side classification by the center-offset cross products, in the fixed
/// comparison order (first against `cross_h`, then against `-cross_h`, both
/// strict).  The order and strictness decide exact diagonal ties and are
/// part of the observable behaviour.
pub open spec fn classified_side(a: Rect, b: Rect) -> SideCollided {
    let cross_w = width_sum(a, b) * center_dy2(a, b);
    let cross_h = height_sum(a, b) * center_dx2(a, b);
    if cross_w > cross_h {
        if cross_w > -cross_h {
            SideCollided::Bottom
        } else {
            SideCollided::Left
        }
    } else {
        if cross_w > -cross_h {
            SideCollided::Right
        } else {
            SideCollided::Top
        }
    }
}

/// What `rect_collision` returns: the classified side when the rectangles
/// overlap, nothing otherwise.
pub open spec fn collision_spec(a: Rect, b: Rect) -> Option<SideCollided> {
    if overlaps(a, b) {
        Some(classified_side(a, b))
    } else {
        None
    }
}

/// `|x * y| <= bx * by` when each factor is bounded in magnitude.
proof fn lemma_mul_bound(x: int, y: int, bx: int, by: int)
    requires
        -bx <= x <= bx,
        -by <= y <= by,
    ensures
        -(bx * by) <= x * y <= bx * by,
{
    assert(-(bx * by) <= x * y <= bx * by) by (nonlinear_arith)
        requires
            -bx <= x <= bx,
            -by <= y <= by,
    ;
}

/// Decides whether the moving body `r1` overlaps the static obstacle `r2`
/// and, if so, which single side of `r2` it struck.  Pure and total over all
/// rectangle pairs; separation is reported as `None`, never as an error.
pub fn rect_collision(r1: &Rect, r2: &Rect) -> (side: Option<SideCollided>)
    ensures
        side == collision_spec(*r1, *r2),
{
    let dx: i64 = (2 * (r1.x as i64) + (r1.w as i64)) - (2 * (r2.x as i64) + (r2.w as i64));
    let dy: i64 = (2 * (r1.y as i64) + (r1.h as i64)) - (2 * (r2.y as i64) + (r2.h as i64));
    let w: i64 = r1.w as i64 + r2.w as i64;
    let h: i64 = r1.h as i64 + r2.h as i64;

    if -w <= dx && dx <= w && -h <= dy && dy <= h {
        proof {
            lemma_mul_bound(w as int, dy as int, 0x1_0000_0000, 0x8_0000_0000);
            lemma_mul_bound(h as int, dx as int, 0x1_0000_0000, 0x8_0000_0000);
        }
        let cross_w: i128 = (w as i128) * (dy as i128);
        let cross_h: i128 = (h as i128) * (dx as i128);
        if cross_w > cross_h {
            if cross_w > -cross_h {
                Some(SideCollided::Bottom)
            } else {
                Some(SideCollided::Left)
            }
        } else {
            if cross_w > -cross_h {
                Some(SideCollided::Right)
            } else {
                Some(SideCollided::Top)
            }
        }
    } else {
        None
    }
}

/// A body that exactly touches one face of an obstacle, centered on it, is
/// classified as that face: resting on top of `b` gives `Top`, pressed under
/// it gives `Bottom`, flush against its left face gives `Left`, flush
/// against its right face gives `Right`.
pub proof fn lemma_touching_faces(a: Rect, b: Rect)
    requires
        a.w > 0,
        a.h > 0,
        b.w > 0,
        b.h > 0,
    ensures
        center_dx2(a, b) == 0 && a.y + a.h == b.y ==> collision_spec(a, b) == Some(
            SideCollided::Top,
        ),
        center_dx2(a, b) == 0 && b.y + b.h == a.y ==> collision_spec(a, b) == Some(
            SideCollided::Bottom,
        ),
        center_dy2(a, b) == 0 && a.x + a.w == b.x ==> collision_spec(a, b) == Some(
            SideCollided::Left,
        ),
        center_dy2(a, b) == 0 && b.x + b.w == a.x ==> collision_spec(a, b) == Some(
            SideCollided::Right,
        ),
{
    let w = width_sum(a, b);
    let h = height_sum(a, b);
    if center_dx2(a, b) == 0 && a.y + a.h == b.y {
        assert(center_dy2(a, b) == -h);
        assert(w * -h < 0 && h * 0 == 0) by (nonlinear_arith)
            requires
                w > 0,
                h > 0,
        ;
    }
    if center_dx2(a, b) == 0 && b.y + b.h == a.y {
        assert(center_dy2(a, b) == h);
        assert(w * h > 0 && h * 0 == 0) by (nonlinear_arith)
            requires
                w > 0,
                h > 0,
        ;
    }
    if center_dy2(a, b) == 0 && a.x + a.w == b.x {
        assert(center_dx2(a, b) == -w);
        assert(h * -w < 0 && w * 0 == 0) by (nonlinear_arith)
            requires
                w > 0,
                h > 0,
        ;
    }
    if center_dy2(a, b) == 0 && b.x + b.w == a.x {
        assert(center_dx2(a, b) == w);
        assert(h * w > 0 && w * 0 == 0) by (nonlinear_arith)
            requires
                w > 0,
                h > 0,
        ;
    }
}

/// Rectangles whose centers are farther apart than the combined half-extents
/// on both axes do not collide.
pub proof fn lemma_separated_no_collision(a: Rect, b: Rect)
    requires
        center_dx2(a, b) > width_sum(a, b) || center_dx2(a, b) < -width_sum(a, b),
        center_dy2(a, b) > height_sum(a, b) || center_dy2(a, b) < -height_sum(a, b),
    ensures
        collision_spec(a, b) is None,
{
}

} // verus!
