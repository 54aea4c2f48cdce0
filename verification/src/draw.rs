use vstd::prelude::*;

use crate::point::Point;
use crate::point::distinct_points;

verus! {

/// The ordered grid points that the Bresenham rasterization of the segment
/// from `p0` to `p1` visits; a pure function of the two endpoints.
pub uninterp spec fn bresenham(p0: Point, p1: Point) -> Seq<Point>;

/// Coordinates handed to the rasterizer are kept this far from the `i32`
/// limits so that the coordinate differences it takes cannot overflow.
pub open spec fn coord_in_range(p: Point) -> bool {
    -0x2000_0000 <= p.x <= 0x2000_0000 && -0x2000_0000 <= p.y <= 0x2000_0000
}

/// `q` lies in the axis-aligned bounding box spanned by the two endpoints.
pub open spec fn in_segment_box(p0: Point, p1: Point, q: Point) -> bool {
    &&& (p0.x <= q.x || p1.x <= q.x)
    &&& (q.x <= p0.x || q.x <= p1.x)
    &&& (p0.y <= q.y || p1.y <= q.y)
    &&& (q.y <= p0.y || q.y <= p1.y)
}

/// `q` lies in the bounding box of one of the four outline segments of the
/// rectangle spanned by `p0` and `p3`.
pub open spec fn in_rectangle_box(p0: Point, p3: Point, q: Point) -> bool {
    let p1 = Point { x: p3.x, y: p0.y };
    let p2 = Point { x: p0.x, y: p3.y };
    ||| in_segment_box(p0, p1, q)
    ||| in_segment_box(p1, p3, q)
    ||| in_segment_box(p3, p2, q)
    ||| in_segment_box(p2, p0, q)
}

/// Relies on line_drawing's Bresenham walk: it emits the cells of the
/// segment in order, start and end point both included, each cell once
/// and each inside the endpoints' bounding box (the driving coordinate of
/// its octant-transformed walk strictly increases every step while the
/// other moves monotonically between the endpoints), and its output
/// depends on the two endpoints alone.
#[verifier::external_body]
fn bresenham_points(p0: Point, p1: Point) -> (r: Vec<Point>)
    requires
        coord_in_range(p0),
        coord_in_range(p1),
    ensures
        r@ == bresenham(p0, p1),
        r@.len() >= 1,
        r@.first() == p0,
        r@.last() == p1,
        distinct_points(r@),
        forall|i: int| 0 <= i < r@.len() ==> in_segment_box(p0, p1, #[trigger] r@[i]),
{
    line_drawing::Bresenham::new((p0.x, p0.y), (p1.x, p1.y))
        .map(|c: (i32, i32)| Point::new(c.0, c.1))
        .collect()
}

/// The ordered points of one straight segment, rasterized with integer-only
/// arithmetic up front and handed out one cell per `next` call.
pub struct Line {
    points: Vec<Point>,
    next_index: usize,
}

impl View for Line {
    type V = Seq<Point>;

    /// The points still to be handed out.
    closed spec fn view(&self) -> Seq<Point> {
        self.points@.skip(self.next_index as int)
    }
}

impl Line {
    pub closed spec fn wf(self) -> bool {
        self.next_index <= self.points@.len()
    }

    pub fn new(p0: Point, p1: Point) -> (l: Line)
        requires
            coord_in_range(p0),
            coord_in_range(p1),
        ensures
            l.wf(),
            l@ == bresenham(p0, p1),
            l@.len() >= 1,
            l@.first() == p0,
            l@.last() == p1,
            distinct_points(l@),
            forall|i: int| 0 <= i < l@.len() ==> in_segment_box(p0, p1, #[trigger] l@[i]),
    {
        let l = Line { points: bresenham_points(p0, p1), next_index: 0 };
        proof {
            assert(l@ =~= l.points@);
        }
        l
    }

    pub fn next(&mut self) -> (point: Option<Point>)
        requires
            old(self).wf(),
        ensures
            final(self).wf(),
            old(self)@.len() == 0 ==> point is None && final(self)@ == old(self)@,
            old(self)@.len() > 0 ==> point == Some(old(self)@.first()) && final(self)@ == old(
                self,
            )@.drop_first(),
    {
        if self.next_index < self.points.len() {
            let p = self.points[self.next_index];
            self.next_index += 1;
            proof {
                assert(self@ =~= old(self)@.drop_first());
            }
            Some(p)
        } else {
            None
        }
    }
}

/// Every point of a rectangle outline built from two opposite corners:
/// four segments joined corner to corner. Each segment includes both of
/// its endpoints, so the four shared corners each appear twice in the
/// combined sequence; consumers test membership, where the repeats are
/// harmless.
pub open spec fn rectangle_points(p0: Point, p3: Point) -> Seq<Point> {
    let p1 = Point { x: p3.x, y: p0.y };
    let p2 = Point { x: p0.x, y: p3.y };
    bresenham(p0, p1) + bresenham(p1, p3) + bresenham(p3, p2) + bresenham(p2, p0)
}

/// The outline of a rectangle, one segment per side, exhausted in order by
/// repeated `next` calls.
pub struct Rectangle {
    line0: Line,
    line1: Line,
    line2: Line,
    line3: Line,
}

impl View for Rectangle {
    type V = Seq<Point>;

    /// The points still to be handed out.
    closed spec fn view(&self) -> Seq<Point> {
        self.line0@ + self.line1@ + self.line2@ + self.line3@
    }
}

impl Rectangle {
    pub closed spec fn wf(self) -> bool {
        self.line0.wf() && self.line1.wf() && self.line2.wf() && self.line3.wf()
    }

    pub fn new(p0: Point, p3: Point) -> (r: Rectangle)
        requires
            coord_in_range(p0),
            coord_in_range(p3),
        ensures
            r.wf(),
            r@ == rectangle_points(p0, p3),
            forall|i: int| 0 <= i < r@.len() ==> in_rectangle_box(p0, p3, #[trigger] r@[i]),
    {
        let p1 = Point::new(p3.x, p0.y);
        let p2 = Point::new(p0.x, p3.y);
        let r = Rectangle {
            line0: Line::new(p0, p1),
            line1: Line::new(p1, p3),
            line2: Line::new(p3, p2),
            line3: Line::new(p2, p0),
        };
        proof {
            assert(r@ =~= rectangle_points(p0, p3));
            let s0 = r.line0@;
            let s1 = r.line1@;
            let s2 = r.line2@;
            let s3 = r.line3@;
            assert forall|i: int| 0 <= i < r@.len() implies in_rectangle_box(p0, p3, r@[i]) by {
                if i < s0.len() {
                    assert(r@[i] == s0[i]);
                } else if i < s0.len() + s1.len() {
                    assert(r@[i] == s1[i - s0.len()]);
                } else if i < s0.len() + s1.len() + s2.len() {
                    assert(r@[i] == s2[i - s0.len() - s1.len()]);
                } else {
                    assert(r@[i] == s3[i - s0.len() - s1.len() - s2.len()]);
                }
            }
        }
        r
    }

    pub fn next(&mut self) -> (point: Option<Point>)
        requires
            old(self).wf(),
        ensures
            final(self).wf(),
            old(self)@.len() == 0 ==> point is None && final(self)@ == old(self)@,
            old(self)@.len() > 0 ==> point == Some(old(self)@.first()) && final(self)@ == old(
                self,
            )@.drop_first(),
    {
        let mut point = self.line0.next();
        if point.is_none() {
            point = self.line1.next();
        }
        if point.is_none() {
            point = self.line2.next();
        }
        if point.is_none() {
            point = self.line3.next();
        }
        proof {
            if old(self)@.len() > 0 {
                assert(self@ =~= old(self)@.drop_first());
            } else {
                assert(self@ =~= old(self)@);
            }
        }
        point
    }
}

} // verus!
