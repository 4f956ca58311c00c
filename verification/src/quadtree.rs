use vstd::prelude::*;
use crate::geometry::{LocationType, Rect};

verus! {

/// Size threshold, in pixels, for subdividing a node: a node whose boundary
/// extent is at or below this value on both axes is permanently a leaf.
/// Chosen as 2.5 times the 144-pixel character width, so a leaf typically
/// holds only the tiles adjacent to one character-sized cell.
pub const SUBDIVIDE_LIMIT: i32 = 360;

/// A node boundary, stored as inclusive minimum and maximum coordinates.
///
/// One convention is used everywhere — containment tests, quadrant routing
/// and child-boundary construction all read `x_max`/`y_max` as absolute
/// coordinates, never as width/height offsets.
#[derive(Clone, Copy, Debug, PartialEq, Eq, Structural)]
pub struct Boundary {
    pub x_min: i32,
    pub y_min: i32,
    pub x_max: i32,
    pub y_max: i32,
}

/// The four quadrants of an internal node.
#[derive(Clone, Copy, Debug, PartialEq, Eq, Structural)]
pub enum Quadrant {
    TopLeft,
    TopRight,
    BottomLeft,
    BottomRight,
}

impl Boundary {
    /// A boundary is valid when its minimum corner is at or before its
    /// maximum corner on both axes.
    pub open spec fn wf(self) -> bool {
        self.x_min <= self.x_max && self.y_min <= self.y_max
    }

    /// Inclusive containment of a point on both axes.
    pub open spec fn spec_contains(self, x: int, y: int) -> bool {
        self.x_min <= x <= self.x_max && self.y_min <= y <= self.y_max
    }

    /// Horizontal midpoint (rounded down).
    pub open spec fn spec_mid_x(self) -> int {
        self.x_min + (self.x_max - self.x_min) / 2
    }

    /// Vertical midpoint (rounded down).
    pub open spec fn spec_mid_y(self) -> int {
        self.y_min + (self.y_max - self.y_min) / 2
    }

    /// The two-axis termination rule: a node subdivides no further once its
    /// extent is at or below the threshold on both width and height.
    pub open spec fn spec_terminal(self) -> bool {
        self.x_max - self.x_min <= SUBDIVIDE_LIMIT && self.y_max - self.y_min <= SUBDIVIDE_LIMIT
    }

    /// Which quadrant a point routes to: at or before the midpoint goes
    /// left/top, past it goes right/bottom.  Insertion and search both use
    /// this one function, which is what makes inserted rectangles
    /// retrievable at their anchor.
    pub open spec fn spec_quadrant(self, x: int, y: int) -> Quadrant {
        if x <= self.spec_mid_x() {
            if y <= self.spec_mid_y() {
                Quadrant::TopLeft
            } else {
                Quadrant::BottomLeft
            }
        } else {
            if y <= self.spec_mid_y() {
                Quadrant::TopRight
            } else {
                Quadrant::BottomRight
            }
        }
    }

    /// The boundary of one quadrant: exactly one quarter of the parent,
    /// split at the midpoints.
    pub open spec fn spec_child(self, q: Quadrant) -> Boundary {
        match q {
            Quadrant::TopLeft => Boundary {
                x_min: self.x_min,
                y_min: self.y_min,
                x_max: self.spec_mid_x() as i32,
                y_max: self.spec_mid_y() as i32,
            },
            Quadrant::TopRight => Boundary {
                x_min: self.spec_mid_x() as i32,
                y_min: self.y_min,
                x_max: self.x_max,
                y_max: self.spec_mid_y() as i32,
            },
            Quadrant::BottomLeft => Boundary {
                x_min: self.x_min,
                y_min: self.spec_mid_y() as i32,
                x_max: self.spec_mid_x() as i32,
                y_max: self.y_max,
            },
            Quadrant::BottomRight => Boundary {
                x_min: self.spec_mid_x() as i32,
                y_min: self.spec_mid_y() as i32,
                x_max: self.x_max,
                y_max: self.y_max,
            },
        }
    }

    /// Termination measure for recursion over shrinking boundaries.
    pub open spec fn spec_size(self) -> int {
        (self.x_max - self.x_min) + (self.y_max - self.y_min)
    }

    pub fn contains(&self, x: i32, y: i32) -> (c: bool)
        ensures
            c == self.spec_contains(x as int, y as int),
    {
        self.x_min <= x && x <= self.x_max && self.y_min <= y && y <= self.y_max
    }

    pub fn is_terminal(&self) -> (t: bool)
        ensures
            t == self.spec_terminal(),
    {
        (self.x_max as i64) - (self.x_min as i64) <= SUBDIVIDE_LIMIT as i64
            && (self.y_max as i64) - (self.y_min as i64) <= SUBDIVIDE_LIMIT as i64
    }

    fn mid_x(&self) -> (m: i32)
        requires
            self.wf(),
        ensures
            m == self.spec_mid_x(),
    {
        let dx: u64 = ((self.x_max as i64) - (self.x_min as i64)) as u64;
        ((self.x_min as i64) + ((dx / 2) as i64)) as i32
    }

    fn mid_y(&self) -> (m: i32)
        requires
            self.wf(),
        ensures
            m == self.spec_mid_y(),
    {
        let dy: u64 = ((self.y_max as i64) - (self.y_min as i64)) as u64;
        ((self.y_min as i64) + ((dy / 2) as i64)) as i32
    }

    pub fn quadrant(&self, x: i32, y: i32) -> (q: Quadrant)
        requires
            self.wf(),
        ensures
            q == self.spec_quadrant(x as int, y as int),
    {
        if x <= self.mid_x() {
            if y <= self.mid_y() {
                Quadrant::TopLeft
            } else {
                Quadrant::BottomLeft
            }
        } else {
            if y <= self.mid_y() {
                Quadrant::TopRight
            } else {
                Quadrant::BottomRight
            }
        }
    }

    pub fn child_boundary(&self, q: Quadrant) -> (b: Boundary)
        requires
            self.wf(),
        ensures
            b == self.spec_child(q),
    {
        let mx = self.mid_x();
        let my = self.mid_y();
        match q {
            Quadrant::TopLeft => Boundary {
                x_min: self.x_min,
                y_min: self.y_min,
                x_max: mx,
                y_max: my,
            },
            Quadrant::TopRight => Boundary {
                x_min: mx,
                y_min: self.y_min,
                x_max: self.x_max,
                y_max: my,
            },
            Quadrant::BottomLeft => Boundary {
                x_min: self.x_min,
                y_min: my,
                x_max: mx,
                y_max: self.y_max,
            },
            Quadrant::BottomRight => Boundary {
                x_min: mx,
                y_min: my,
                x_max: self.x_max,
                y_max: self.y_max,
            },
        }
    }
}

/// A quadrant boundary of a valid, non-terminal boundary is itself valid and
/// strictly smaller, so subdivision terminates.
pub proof fn lemma_child_geometry(b: Boundary, q: Quadrant)
    requires
        b.wf(),
        !b.spec_terminal(),
    ensures
        b.spec_child(q).wf(),
        b.spec_child(q).spec_size() < b.spec_size(),
        b.x_min <= b.spec_mid_x() <= b.x_max,
        b.y_min <= b.spec_mid_y() <= b.y_max,
{
    let dx = b.x_max - b.x_min;
    let dy = b.y_max - b.y_min;
    assert(0 <= dx / 2 <= dx);
    assert(0 <= dy / 2 <= dy);
    assert(dx > SUBDIVIDE_LIMIT ==> dx / 2 < dx && dx - dx / 2 < dx);
    assert(dy > SUBDIVIDE_LIMIT ==> dy / 2 < dy && dy - dy / 2 < dy);
}

/// A point routed to a quadrant lies inside that quadrant's boundary: the
/// geometric heart of insert/search agreement.
pub proof fn lemma_quadrant_contains(b: Boundary, x: int, y: int)
    requires
        b.wf(),
        !b.spec_terminal(),
        b.spec_contains(x, y),
    ensures
        b.spec_child(b.spec_quadrant(x, y)).spec_contains(x, y),
{
    lemma_child_geometry(b, b.spec_quadrant(x, y));
}

/// A leaf stores rectangles directly; an internal node delegates to up to
/// four lazily created children.  The two roles are separate variants, so a
/// node can never be both at once.
pub enum NodeKind {
    Leaf { rects: Vec<Rect> },
    Internal {
        top_left: Option<Box<QuadTree>>,
        top_right: Option<Box<QuadTree>>,
        bottom_left: Option<Box<QuadTree>>,
        bottom_right: Option<Box<QuadTree>>,
    },
}

/// The spatial index: a quadtree over static level geometry.  Rectangles
/// are routed to a quadrant by an anchor point at insertion time and
/// retrieved by descending with the same routing from a query point.
pub struct QuadTree {
    pub boundary: Boundary,
    pub kind: NodeKind,
}

impl QuadTree {
    /// The child stored for a quadrant (`None` on a leaf).
    pub open spec fn child_of(self, q: Quadrant) -> Option<Box<QuadTree>> {
        match self.kind {
            NodeKind::Internal { top_left, top_right, bottom_left, bottom_right } => match q {
                Quadrant::TopLeft => top_left,
                Quadrant::TopRight => top_right,
                Quadrant::BottomLeft => bottom_left,
                Quadrant::BottomRight => bottom_right,
            },
            NodeKind::Leaf { .. } => None,
        }
    }

    /// Well-formedness: the boundary is valid, a node is a leaf exactly when
    /// its boundary is at or below the subdivision threshold, and every child
    /// carries exactly the quadrant boundary computed from its parent.
    pub open spec fn wf(self) -> bool
        decreases self,
    {
        &&& self.boundary.wf()
        &&& match self.kind {
            NodeKind::Leaf { rects } => self.boundary.spec_terminal(),
            NodeKind::Internal { top_left, top_right, bottom_left, bottom_right } => {
                &&& !self.boundary.spec_terminal()
                &&& match top_left {
                    Some(c) => c.boundary == self.boundary.spec_child(Quadrant::TopLeft)
                        && c.wf(),
                    None => true,
                }
                &&& match top_right {
                    Some(c) => c.boundary == self.boundary.spec_child(Quadrant::TopRight)
                        && c.wf(),
                    None => true,
                }
                &&& match bottom_left {
                    Some(c) => c.boundary == self.boundary.spec_child(Quadrant::BottomLeft)
                        && c.wf(),
                    None => true,
                }
                &&& match bottom_right {
                    Some(c) => c.boundary == self.boundary.spec_child(Quadrant::BottomRight)
                        && c.wf(),
                    None => true,
                }
            },
        }
    }

    /// What `search` returns: descend by quadrant routing; a leaf yields its
    /// stored rectangles, a missing child or a point outside the boundary
    /// yields nothing.
    pub open spec fn search_at(self, x: int, y: int) -> Option<Seq<Rect>>
        decreases self,
    {
        if !self.boundary.spec_contains(x, y) {
            None
        } else {
            match self.kind {
                NodeKind::Leaf { rects } => Some(rects@),
                NodeKind::Internal { top_left, top_right, bottom_left, bottom_right } => {
                    match self.boundary.spec_quadrant(x, y) {
                        Quadrant::TopLeft => match top_left {
                            Some(c) => c.search_at(x, y),
                            None => None,
                        },
                        Quadrant::TopRight => match top_right {
                            Some(c) => c.search_at(x, y),
                            None => None,
                        },
                        Quadrant::BottomLeft => match bottom_left {
                            Some(c) => c.search_at(x, y),
                            None => None,
                        },
                        Quadrant::BottomRight => match bottom_right {
                            Some(c) => c.search_at(x, y),
                            None => None,
                        },
                    }
                },
            }
        }
    }

    /// A freshly constructed node: an empty leaf when the boundary is
    /// terminal, otherwise an internal node with no children yet.
    pub open spec fn is_fresh(self) -> bool {
        match self.kind {
            NodeKind::Leaf { rects } => self.boundary.spec_terminal() && rects@ === Seq::<
                Rect,
            >::empty(),
            NodeKind::Internal { top_left, top_right, bottom_left, bottom_right } => {
                &&& !self.boundary.spec_terminal()
                &&& top_left is None
                &&& top_right is None
                &&& bottom_left is None
                &&& bottom_right is None
            },
        }
    }

    /// `post` is the chain of nodes that inserting into a previously absent
    /// child with boundary `b` creates: single-child internal nodes down to
    /// a leaf holding exactly the inserted rectangle.
    pub open spec fn is_insert_fresh(b: Boundary, post: QuadTree, x: int, y: int, r: Rect) -> bool
        decreases b.spec_size(),
        when b.wf()
    {
        &&& post.boundary == b
        &&& if b.spec_terminal() {
            post.kind matches NodeKind::Leaf { rects } && rects@ === seq![r]
        } else {
            let q = b.spec_quadrant(x, y);
            &&& post.kind is Internal
            &&& (forall|q2: Quadrant| q2 != q ==> post.child_of(q2) is None)
            &&& (post.child_of(q) matches Some(c) && {
                proof {
                    lemma_child_geometry(b, q);
                }
                QuadTree::is_insert_fresh(b.spec_child(q), *c, x, y, r)
            })
        }
    }

    /// `post` is `pre` with `r` inserted at anchor `(x, y)`: unchanged when
    /// the anchor is outside the boundary, appended to the stored rectangles
    /// at a leaf, and otherwise delegated to the anchor's quadrant, creating
    /// that child if it was absent.  Everything else is untouched.
    pub open spec fn is_insert(pre: QuadTree, post: QuadTree, x: int, y: int, r: Rect) -> bool
        decreases pre.boundary.spec_size(),
        when pre.wf()
    {
        if !pre.boundary.spec_contains(x, y) {
            post == pre
        } else {
            match pre.kind {
                NodeKind::Leaf { rects } => {
                    &&& post.boundary == pre.boundary
                    &&& (post.kind matches NodeKind::Leaf { rects: post_rects } && post_rects@
                        === rects@.push(r))
                },
                NodeKind::Internal { .. } => {
                    let q = pre.boundary.spec_quadrant(x, y);
                    &&& post.boundary == pre.boundary
                    &&& post.kind is Internal
                    &&& (forall|q2: Quadrant| q2 != q ==> post.child_of(q2) == pre.child_of(q2))
                    &&& (post.child_of(q) matches Some(c2) && match pre.child_of(q) {
                        Some(c) => QuadTree::is_insert(*c, *c2, x, y, r),
                        None => {
                            proof {
                                lemma_child_geometry(pre.boundary, q);
                            }
                            QuadTree::is_insert_fresh(pre.boundary.spec_child(q), *c2, x, y, r)
                        },
                    })
                },
            }
        }
    }

    /// Creates an empty index whose root boundary starts at `(x, y)` and
    /// extends `width` by `height` pixels.
    pub fn new(x: i32, y: i32, width: i32, height: i32) -> (t: QuadTree)
        requires
            0 <= width,
            0 <= height,
            x + width <= i32::MAX,
            y + height <= i32::MAX,
        ensures
            t.boundary == (Boundary {
                x_min: x,
                y_min: y,
                x_max: (x + width) as i32,
                y_max: (y + height) as i32,
            }),
            t.is_fresh(),
            t.wf(),
    {
        let b = Boundary { x_min: x, y_min: y, x_max: x + width, y_max: y + height };
        if b.is_terminal() {
            QuadTree { boundary: b, kind: NodeKind::Leaf { rects: Vec::new() } }
        } else {
            QuadTree {
                boundary: b,
                kind: NodeKind::Internal {
                    top_left: None,
                    top_right: None,
                    bottom_left: None,
                    bottom_right: None,
                },
            }
        }
    }

    /// Builds the node chain for an insertion into a previously absent child.
    fn grow_with(b: Boundary, x: i32, y: i32, data: Rect) -> (t: QuadTree)
        requires
            b.wf(),
            b.spec_contains(x as int, y as int),
        ensures
            t.wf(),
            QuadTree::is_insert_fresh(b, t, x as int, y as int, data),
        decreases b.spec_size(),
    {
        if b.is_terminal() {
            let mut rects: Vec<Rect> = Vec::new();
            rects.push(data);
            QuadTree { boundary: b, kind: NodeKind::Leaf { rects } }
        } else {
            let q = b.quadrant(x, y);
            let cb = b.child_boundary(q);
            proof {
                lemma_child_geometry(b, q);
                lemma_quadrant_contains(b, x as int, y as int);
            }
            let sub = Some(Box::new(QuadTree::grow_with(cb, x, y, data)));
            let t = match q {
                Quadrant::TopLeft => QuadTree {
                    boundary: b,
                    kind: NodeKind::Internal {
                        top_left: sub,
                        top_right: None,
                        bottom_left: None,
                        bottom_right: None,
                    },
                },
                Quadrant::TopRight => QuadTree {
                    boundary: b,
                    kind: NodeKind::Internal {
                        top_left: None,
                        top_right: sub,
                        bottom_left: None,
                        bottom_right: None,
                    },
                },
                Quadrant::BottomLeft => QuadTree {
                    boundary: b,
                    kind: NodeKind::Internal {
                        top_left: None,
                        top_right: None,
                        bottom_left: sub,
                        bottom_right: None,
                    },
                },
                Quadrant::BottomRight => QuadTree {
                    boundary: b,
                    kind: NodeKind::Internal {
                        top_left: None,
                        top_right: None,
                        bottom_left: None,
                        bottom_right: sub,
                    },
                },
            };
            t
        }
    }

    /// Inserts into a child slot, creating the child when absent.
    fn insert_child(c: Option<Box<QuadTree>>, b: Boundary, x: i32, y: i32, data: Rect) -> (r: Box<
        QuadTree,
    >)
        requires
            b.wf(),
            b.spec_contains(x as int, y as int),
            c matches Some(n) ==> n.wf() && n.boundary == b,
        ensures
            r.wf(),
            r.boundary == b,
            match c {
                Some(n) => QuadTree::is_insert(*n, *r, x as int, y as int, data),
                None => QuadTree::is_insert_fresh(b, *r, x as int, y as int, data),
            },
        decreases c,
    {
        match c {
            Some(mut n) => {
                (&mut *n).insert(x, y, data);
                n
            },
            None => Box::new(QuadTree::grow_with(b, x, y, data)),
        }
    }

    /// Inserts `data`, routed by the anchor `(x, y)`.  An anchor outside the
    /// node's boundary leaves the tree unchanged by design: this is an
    /// insert-once static structure and out-of-bounds geometry is simply not
    /// stored.
    pub fn insert(&mut self, x: i32, y: i32, data: Rect)
        requires
            old(self).wf(),
        ensures
            final(self).wf(),
            final(self).boundary == old(self).boundary,
            QuadTree::is_insert(*old(self), *final(self), x as int, y as int, data),
        decreases *old(self),
    {
        if !self.boundary.contains(x, y) {
            return ;
        }
        let q = self.boundary.quadrant(x, y);
        let cb = self.boundary.child_boundary(q);
        let mut kind = NodeKind::Internal {
            top_left: None,
            top_right: None,
            bottom_left: None,
            bottom_right: None,
        };
        std::mem::swap(&mut kind, &mut self.kind);
        match kind {
            NodeKind::Leaf { mut rects } => {
                rects.push(data);
                self.kind = NodeKind::Leaf { rects };
            },
            NodeKind::Internal { top_left, top_right, bottom_left, bottom_right } => {
                proof {
                    lemma_child_geometry(self.boundary, q);
                    lemma_quadrant_contains(self.boundary, x as int, y as int);
                }
                match q {
                    Quadrant::TopLeft => {
                        let c = Self::insert_child(top_left, cb, x, y, data);
                        self.kind = NodeKind::Internal {
                            top_left: Some(c),
                            top_right,
                            bottom_left,
                            bottom_right,
                        };
                    },
                    Quadrant::TopRight => {
                        let c = Self::insert_child(top_right, cb, x, y, data);
                        self.kind = NodeKind::Internal {
                            top_left,
                            top_right: Some(c),
                            bottom_left,
                            bottom_right,
                        };
                    },
                    Quadrant::BottomLeft => {
                        let c = Self::insert_child(bottom_left, cb, x, y, data);
                        self.kind = NodeKind::Internal {
                            top_left,
                            top_right,
                            bottom_left: Some(c),
                            bottom_right,
                        };
                    },
                    Quadrant::BottomRight => {
                        let c = Self::insert_child(bottom_right, cb, x, y, data);
                        self.kind = NodeKind::Internal {
                            top_left,
                            top_right,
                            bottom_left,
                            bottom_right: Some(c),
                        };
                    },
                }
            },
        }
    }

    /// Looks up the rectangles stored in the leaf that the query point
    /// routes to.  Returns `None` when the point is outside the root
    /// boundary or the routed-to child was never populated; the result is a
    /// broad-phase candidate set local to one spatial bucket, not an
    /// exhaustive overlap test.
    pub fn search(&self, x: i32, y: i32) -> (found: Option<&Vec<Rect>>)
        requires
            self.wf(),
        ensures
            match found {
                Some(v) => self.search_at(x as int, y as int) == Some(v@),
                None => self.search_at(x as int, y as int) is None,
            },
        decreases *self,
    {
        if !self.boundary.contains(x, y) {
            return None;
        }
        match &self.kind {
            NodeKind::Leaf { rects } => Some(rects),
            NodeKind::Internal { top_left, top_right, bottom_left, bottom_right } => {
                let q = self.boundary.quadrant(x, y);
                let child: &Option<Box<QuadTree>> = match q {
                    Quadrant::TopLeft => top_left,
                    Quadrant::TopRight => top_right,
                    Quadrant::BottomLeft => bottom_left,
                    Quadrant::BottomRight => bottom_right,
                };
                match child {
                    Some(c) => c.search(x, y),
                    None => None,
                }
            },
        }
    }
}

/// Searching at a point outside a node's boundary finds nothing.
pub proof fn lemma_search_outside_none(t: QuadTree, x: int, y: int)
    requires
        !t.boundary.spec_contains(x, y),
    ensures
        t.search_at(x, y) is None,
{
}

/// Inserting into a previously absent child builds a chain whose search at
/// the anchor finds exactly the inserted rectangle.
proof fn lemma_insert_fresh_search_finds(b: Boundary, post: QuadTree, x: int, y: int, r: Rect)
    requires
        b.wf(),
        b.spec_contains(x, y),
        QuadTree::is_insert_fresh(b, post, x, y, r),
    ensures
        post.search_at(x, y) == Some(seq![r]),
    decreases b.spec_size(),
{
    if b.spec_terminal() {
    } else {
        let q = b.spec_quadrant(x, y);
        lemma_child_geometry(b, q);
        lemma_quadrant_contains(b, x, y);
        match post.child_of(q) {
            Some(c) => {
                lemma_insert_fresh_search_finds(b.spec_child(q), *c, x, y, r);
            },
            None => {},
        }
    }
}

/// Any rectangle inserted with an anchor inside a valid tree's root
/// boundary is contained in the result of a search at that same anchor.
pub proof fn lemma_insert_then_search_finds(pre: QuadTree, post: QuadTree, x: int, y: int, r: Rect)
    requires
        pre.wf(),
        pre.boundary.spec_contains(x, y),
        QuadTree::is_insert(pre, post, x, y, r),
    ensures
        post.search_at(x, y) matches Some(s) && s.contains(r),
    decreases pre.boundary.spec_size(),
{
    match pre.kind {
        NodeKind::Leaf { rects } => {
            assert(rects@.push(r)[rects@.len() as int] == r);
        },
        NodeKind::Internal { .. } => {
            let q = pre.boundary.spec_quadrant(x, y);
            lemma_child_geometry(pre.boundary, q);
            lemma_quadrant_contains(pre.boundary, x, y);
            match (pre.child_of(q), post.child_of(q)) {
                (Some(c), Some(c2)) => {
                    lemma_insert_then_search_finds(*c, *c2, x, y, r);
                },
                (None, Some(c2)) => {
                    lemma_insert_fresh_search_finds(pre.boundary.spec_child(q), *c2, x, y, r);
                    assert(seq![r][0] == r);
                },
                _ => {},
            }
        },
    }
}

/// Rectangles inserted with anchors in different quadrants of a subdivided
/// node are not cross-retrievable: the insertion is invisible to a search
/// routed to any other quadrant, so that search returns exactly what it
/// returned before.
pub proof fn lemma_insert_other_quadrant_invisible(
    pre: QuadTree,
    post: QuadTree,
    x1: int,
    y1: int,
    x2: int,
    y2: int,
    r2: Rect,
)
    requires
        pre.wf(),
        pre.boundary.spec_contains(x2, y2),
        !pre.boundary.spec_terminal(),
        pre.boundary.spec_quadrant(x1, y1) != pre.boundary.spec_quadrant(x2, y2),
        QuadTree::is_insert(pre, post, x2, y2, r2),
    ensures
        post.search_at(x1, y1) == pre.search_at(x1, y1),
{
    let q1 = pre.boundary.spec_quadrant(x1, y1);
    assert(post.child_of(q1) == pre.child_of(q1));
}

/// The chain built for an insertion into an absent child is well formed.
proof fn lemma_insert_fresh_wf(b: Boundary, post: QuadTree, x: int, y: int, r: Rect)
    requires
        b.wf(),
        QuadTree::is_insert_fresh(b, post, x, y, r),
    ensures
        post.wf(),
        post.boundary == b,
    decreases b.spec_size(),
{
    if b.spec_terminal() {
    } else {
        let q = b.spec_quadrant(x, y);
        lemma_child_geometry(b, q);
        match post.child_of(q) {
            Some(c) => {
                lemma_insert_fresh_wf(b.spec_child(q), *c, x, y, r);
            },
            None => {},
        }
        assert(Quadrant::TopLeft != q ==> post.child_of(Quadrant::TopLeft) is None);
        assert(Quadrant::TopRight != q ==> post.child_of(Quadrant::TopRight) is None);
        assert(Quadrant::BottomLeft != q ==> post.child_of(Quadrant::BottomLeft) is None);
        assert(Quadrant::BottomRight != q ==> post.child_of(Quadrant::BottomRight) is None);
    }
}

/// Insertion keeps the tree well formed.
pub proof fn lemma_insert_preserves_wf(pre: QuadTree, post: QuadTree, x: int, y: int, r: Rect)
    requires
        pre.wf(),
        QuadTree::is_insert(pre, post, x, y, r),
    ensures
        post.wf(),
        post.boundary == pre.boundary,
    decreases pre.boundary.spec_size(),
{
    if !pre.boundary.spec_contains(x, y) {
    } else {
        match pre.kind {
            NodeKind::Leaf { .. } => {},
            NodeKind::Internal { .. } => {
                let q = pre.boundary.spec_quadrant(x, y);
                lemma_child_geometry(pre.boundary, q);
                match (pre.child_of(q), post.child_of(q)) {
                    (Some(c), Some(c2)) => {
                        lemma_insert_preserves_wf(*c, *c2, x, y, r);
                    },
                    (None, Some(c2)) => {
                        lemma_insert_fresh_wf(pre.boundary.spec_child(q), *c2, x, y, r);
                    },
                    _ => {},
                }
                assert(Quadrant::TopLeft != q ==> post.child_of(Quadrant::TopLeft)
                    == pre.child_of(Quadrant::TopLeft));
                assert(Quadrant::TopRight != q ==> post.child_of(Quadrant::TopRight)
                    == pre.child_of(Quadrant::TopRight));
                assert(Quadrant::BottomLeft != q ==> post.child_of(Quadrant::BottomLeft)
                    == pre.child_of(Quadrant::BottomLeft));
                assert(Quadrant::BottomRight != q ==> post.child_of(Quadrant::BottomRight)
                    == pre.child_of(Quadrant::BottomRight));
            },
        }
    }
}

/// The full statement that anchors in different root quadrants do not see
/// each other: on a freshly subdivided root, after inserting each of two
/// rectangles at its own anchor, a search at the first anchor returns
/// exactly the first rectangle — never the other quadrant's.
pub proof fn lemma_two_quadrants_never_cross_retrieved(
    t0: QuadTree,
    t1: QuadTree,
    t2: QuadTree,
    x1: int,
    y1: int,
    r1: Rect,
    x2: int,
    y2: int,
    r2: Rect,
)
    requires
        t0.wf(),
        t0.is_fresh(),
        !t0.boundary.spec_terminal(),
        t0.boundary.spec_contains(x1, y1),
        t0.boundary.spec_contains(x2, y2),
        t0.boundary.spec_quadrant(x1, y1) != t0.boundary.spec_quadrant(x2, y2),
        QuadTree::is_insert(t0, t1, x1, y1, r1),
        QuadTree::is_insert(t1, t2, x2, y2, r2),
    ensures
        t2.search_at(x1, y1) == Some(seq![r1]),
{
    let q1 = t0.boundary.spec_quadrant(x1, y1);
    lemma_child_geometry(t0.boundary, q1);
    lemma_quadrant_contains(t0.boundary, x1, y1);
    match t1.child_of(q1) {
        Some(c) => {
            lemma_insert_fresh_search_finds(t0.boundary.spec_child(q1), *c, x1, y1, r1);
        },
        None => {},
    }
    lemma_insert_preserves_wf(t0, t1, x1, y1, r1);
    lemma_insert_other_quadrant_invisible(t1, t2, x1, y1, x2, y2, r2);
}

/// `post` is `pre` after inserting each rectangle of `rects` in order, each
/// at its own origin as anchor.
pub open spec fn is_insert_seq(pre: QuadTree, post: QuadTree, rects: Seq<Rect>) -> bool
    decreases rects.len(),
{
    if rects.len() == 0 {
        post == pre
    } else {
        exists|mid: QuadTree|
            #[trigger] QuadTree::is_insert(pre, mid, rects[0].x as int, rects[0].y as int, rects[0])
                && is_insert_seq(mid, post, rects.drop_first())
    }
}

/// Insertion never loses stored geometry: whatever a search already
/// returned is still in that search's result after any further insert.
pub proof fn lemma_insert_keeps_found(
    pre: QuadTree,
    post: QuadTree,
    x2: int,
    y2: int,
    r2: Rect,
    x1: int,
    y1: int,
    r: Rect,
)
    requires
        pre.wf(),
        QuadTree::is_insert(pre, post, x2, y2, r2),
        pre.search_at(x1, y1) matches Some(s) && s.contains(r),
    ensures
        post.search_at(x1, y1) matches Some(s2) && s2.contains(r),
    decreases pre.boundary.spec_size(),
{
    if !pre.boundary.spec_contains(x2, y2) {
    } else {
        match pre.kind {
            NodeKind::Leaf { rects } => {
                let s = pre.search_at(x1, y1)->0;
                let idx = choose|idx: int| 0 <= idx < s.len() && s[idx] == r;
                assert(rects@.push(r2)[idx] == r);
            },
            NodeKind::Internal { .. } => {
                let q1 = pre.boundary.spec_quadrant(x1, y1);
                let q2 = pre.boundary.spec_quadrant(x2, y2);
                lemma_child_geometry(pre.boundary, q2);
                if q1 != q2 {
                    assert(post.child_of(q1) == pre.child_of(q1));
                } else {
                    match (pre.child_of(q1), post.child_of(q1)) {
                        (Some(c), Some(c2)) => {
                            lemma_insert_keeps_found(*c, *c2, x2, y2, r2, x1, y1, r);
                        },
                        _ => {},
                    }
                }
            },
        }
    }
}

/// A batch of inserts keeps anything an earlier search already found.
proof fn lemma_insert_seq_keeps_found(
    pre: QuadTree,
    post: QuadTree,
    rects: Seq<Rect>,
    x1: int,
    y1: int,
    r: Rect,
)
    requires
        pre.wf(),
        is_insert_seq(pre, post, rects),
        pre.search_at(x1, y1) matches Some(s) && s.contains(r),
    ensures
        post.search_at(x1, y1) matches Some(s2) && s2.contains(r),
    decreases rects.len(),
{
    if rects.len() > 0 {
        let mid = choose|mid: QuadTree|
            #[trigger] QuadTree::is_insert(pre, mid, rects[0].x as int, rects[0].y as int, rects[0])
                && is_insert_seq(mid, post, rects.drop_first());
        lemma_insert_keeps_found(pre, mid, rects[0].x as int, rects[0].y as int, rects[0], x1, y1, r);
        lemma_insert_preserves_wf(pre, mid, rects[0].x as int, rects[0].y as int, rects[0]);
        lemma_insert_seq_keeps_found(mid, post, rects.drop_first(), x1, y1, r);
    }
}

/// The batch form of insert-then-find, covering the level-load path: after
/// inserting a whole batch in order, every rectangle of it whose anchor lay
/// inside the root boundary is found by a search at that anchor.
pub proof fn lemma_insert_seq_search_finds(pre: QuadTree, post: QuadTree, rects: Seq<Rect>, k: int)
    requires
        pre.wf(),
        is_insert_seq(pre, post, rects),
        0 <= k < rects.len(),
        pre.boundary.spec_contains(rects[k].x as int, rects[k].y as int),
    ensures
        post.search_at(rects[k].x as int, rects[k].y as int) matches Some(s) && s.contains(
            rects[k],
        ),
    decreases rects.len(),
{
    let mid = choose|mid: QuadTree|
        #[trigger] QuadTree::is_insert(pre, mid, rects[0].x as int, rects[0].y as int, rects[0])
            && is_insert_seq(mid, post, rects.drop_first());
    lemma_insert_preserves_wf(pre, mid, rects[0].x as int, rects[0].y as int, rects[0]);
    if k == 0 {
        lemma_insert_then_search_finds(pre, mid, rects[0].x as int, rects[0].y as int, rects[0]);
        lemma_insert_seq_keeps_found(
            mid,
            post,
            rects.drop_first(),
            rects[0].x as int,
            rects[0].y as int,
            rects[0],
        );
    } else {
        assert(rects.drop_first()[k - 1] == rects[k]);
        lemma_insert_seq_search_finds(mid, post, rects.drop_first(), k - 1);
    }
}

impl QuadTree {
    /// Inserts the rectangles of `locs` from index `i` on, in order.
    fn insert_slice(&mut self, locs: &Vec<Rect>, i: usize)
        requires
            old(self).wf(),
            i <= locs.len(),
        ensures
            final(self).wf(),
            final(self).boundary == old(self).boundary,
            is_insert_seq(*old(self), *final(self), locs@.skip(i as int)),
        decreases locs.len() - i,
    {
        if i < locs.len() {
            let rct = locs[i];
            self.insert(rct.x, rct.y, rct);
            let ghost mid = *self;
            self.insert_slice(locs, i + 1);
            proof {
                assert(locs@.skip(i as int).drop_first() =~= locs@.skip(i as int + 1));
                assert(locs@.skip(i as int)[0] == locs@[i as int]);
                assert(QuadTree::is_insert(
                    *old(self),
                    mid,
                    locs@.skip(i as int)[0].x as int,
                    locs@.skip(i as int)[0].y as int,
                    locs@.skip(i as int)[0],
                ));
            }
        } else {
            proof {
                assert(locs@.skip(i as int).len() == 0);
            }
        }
    }
}

/// Feeds level geometry into the index: a single rectangle, or each
/// rectangle of a batch in order, always anchored at its own origin.
pub fn update_quadtree(tree: &mut QuadTree, location: LocationType)
    requires
        old(tree).wf(),
    ensures
        final(tree).wf(),
        final(tree).boundary == old(tree).boundary,
        match location {
            LocationType::Single(rct) => QuadTree::is_insert(
                *old(tree),
                *final(tree),
                rct.x as int,
                rct.y as int,
                rct,
            ),
            LocationType::Multiple(locs) => is_insert_seq(*old(tree), *final(tree), locs@),
        },
{
    match location {
        LocationType::Single(rct) => {
            tree.insert(rct.x, rct.y, rct);
        },
        LocationType::Multiple(locs) => {
            tree.insert_slice(&locs, 0);
            proof {
                assert(locs@.skip(0) =~= locs@);
            }
        },
    }
}

} // verus!
