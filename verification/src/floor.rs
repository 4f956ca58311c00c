use vstd::prelude::*;
use vstd::arithmetic::div_mod::{lemma_fundamental_div_mod, lemma_remainder_lower, lemma_remainder_upper};
use vstd::arithmetic::mul::lemma_mul_is_distributive_add;
use crate::geometry::{LocationType, Rect};

verus! {

/// Pixel dimensions of one floor tile image.
#[derive(Clone, Copy, Debug, PartialEq, Eq, Structural)]
pub struct TileDims {
    pub w: i32,
    pub h: i32,
}

/// The floor strip at the bottom of a level: a left corner tile, a run of
/// middle tiles, and a right corner tile.  This type carries the tile
/// dimensions; the images themselves are drawn outside this crate.
#[derive(Clone, Copy, Debug, PartialEq, Eq, Structural)]
pub struct Floor {
    pub left_corner: TileDims,
    pub middle: TileDims,
    pub right_corner: TileDims,
}

impl Floor {
    /// Dimensions are image sizes: non-negative, and the left corner must
    /// have real width since it sets the horizontal stride.
    pub open spec fn wf(self) -> bool {
        &&& self.left_corner.w >= 1
        &&& self.left_corner.h >= 0
        &&& self.middle.w >= 0
        &&& self.middle.h >= 0
        &&& self.right_corner.w >= 0
        &&& self.right_corner.h >= 0
    }

    /// How many middle tiles the strip holds on a screen `screen_w` wide:
    /// one per stride of the left corner's width, minus the two corners.
    pub open spec fn spec_middle_count(self, screen_w: int) -> int {
        let count = screen_w / (self.left_corner.w as int);
        if count >= 2 {
            count - 2
        } else {
            0
        }
    }

    /// The strip that `generate_location` lays out: the left corner at the
    /// origin column, one middle tile per stride, and the right corner
    /// flush with the screen's right edge, each sitting two of its own
    /// heights above the bottom of the screen.
    pub open spec fn is_strip(self, screen_w: int, screen_h: int, v: Seq<Rect>) -> bool {
        &&& v.len() == self.spec_middle_count(screen_w) + 2
        &&& v[0] == (Rect {
            x: 0,
            y: (screen_h - 2 * self.left_corner.h) as i32,
            w: self.left_corner.w,
            h: self.left_corner.h,
        })
        &&& (forall|i: int|
            1 <= i <= self.spec_middle_count(screen_w) ==> v[i] == (Rect {
                x: (self.left_corner.w * i) as i32,
                y: (screen_h - 2 * self.middle.h) as i32,
                w: self.middle.w,
                h: self.middle.h,
            }))
        &&& v[v.len() - 1] == (Rect {
            x: (screen_w - self.right_corner.w) as i32,
            y: (screen_h - 2 * self.right_corner.h) as i32,
            w: self.right_corner.w,
            h: self.right_corner.h,
        })
    }

    pub fn new(left_corner: TileDims, middle: TileDims, right_corner: TileDims) -> (f: Floor)
        ensures
            f == (Floor { left_corner, middle, right_corner }),
    {
        Floor { left_corner, middle, right_corner }
    }

    /// The rectangles the floor tiles occupy, left to right: the left
    /// corner at the origin column, middle tiles at each stride, and the
    /// right corner flush with the screen's right edge, each sitting two of
    /// its own heights above the bottom of the screen.
    pub fn generate_location(&self, screen_w: i32, screen_h: i32) -> (v: Vec<Rect>)
        requires
            self.wf(),
            screen_w >= 0,
            i32::MIN <= screen_h - 2 * self.left_corner.h,
            i32::MIN <= screen_h - 2 * self.middle.h,
            i32::MIN <= screen_h - 2 * self.right_corner.h,
            i32::MIN <= screen_w - self.right_corner.w,
        ensures
            self.is_strip(screen_w as int, screen_h as int, v@),
    {
        let mut v: Vec<Rect> = Vec::new();
        let left_w = self.left_corner.w;
        v.push(
            Rect {
                x: 0,
                y: ((screen_h as i64) - 2 * (self.left_corner.h as i64)) as i32,
                w: self.left_corner.w,
                h: self.left_corner.h,
            },
        );
        let count: i32 = screen_w / left_w;
        proof {
            lemma_fundamental_div_mod(screen_w as int, left_w as int);
            lemma_remainder_lower(screen_w as int, left_w as int);
            lemma_remainder_upper(screen_w as int, left_w as int);
            assert(left_w * (count as int) <= screen_w);
        }
        let middle_y: i32 = ((screen_h as i64) - 2 * (self.middle.h as i64)) as i32;
        let mut i: i32 = 1;
        let mut x: i32 = left_w;
        while i < count - 1
            invariant
                self.wf(),
                1 <= i,
                0 <= count,
                count == screen_w as int / self.left_corner.w as int,
                left_w == self.left_corner.w,
                middle_y == screen_h - 2 * self.middle.h,
                self.left_corner.w * (count as int) <= screen_w <= i32::MAX,
                count >= 2 ==> i <= count - 1,
                count < 2 ==> i == 1,
                x == self.left_corner.w * (i as int),
                v@.len() == i,
                v@[0] == (Rect {
                    x: 0,
                    y: (screen_h - 2 * self.left_corner.h) as i32,
                    w: self.left_corner.w,
                    h: self.left_corner.h,
                }),
                forall|j: int|
                    1 <= j < i ==> v@[j] == (Rect {
                        x: (self.left_corner.w * j) as i32,
                        y: (screen_h - 2 * self.middle.h) as i32,
                        w: self.middle.w,
                        h: self.middle.h,
                    }),
            decreases count - i,
        {
            v.push(Rect { x, y: middle_y, w: self.middle.w, h: self.middle.h });
            proof {
                lemma_mul_is_distributive_add(left_w as int, i as int, 1);
                assert(left_w * (i as int + 1) <= left_w * (count as int)) by (nonlinear_arith)
                    requires
                        i as int + 1 <= count as int,
                        left_w as int >= 0,
                ;
            }
            x = x + left_w;
            i = i + 1;
        }
        v.push(
            Rect {
                x: ((screen_w as i64) - (self.right_corner.w as i64)) as i32,
                y: ((screen_h as i64) - 2 * (self.right_corner.h as i64)) as i32,
                w: self.right_corner.w,
                h: self.right_corner.h,
            },
        );
        v
    }

    /// The floor's static geometry, as handed to the spatial index.
    pub fn get_location(&self, screen_w: i32, screen_h: i32) -> (loc: LocationType)
        requires
            self.wf(),
            screen_w >= 0,
            i32::MIN <= screen_h - 2 * self.left_corner.h,
            i32::MIN <= screen_h - 2 * self.middle.h,
            i32::MIN <= screen_h - 2 * self.right_corner.h,
            i32::MIN <= screen_w - self.right_corner.w,
        ensures
            loc matches LocationType::Multiple(v) && self.is_strip(
                screen_w as int,
                screen_h as int,
                v@,
            ),
    {
        LocationType::Multiple(self.generate_location(screen_w, screen_h))
    }
}

} // verus!
