use vstd::prelude::*;

use crate::draw::Line;
use crate::draw::Rectangle;
use crate::draw::bresenham;
use crate::draw::coord_in_range;
use crate::draw::in_rectangle_box;
use crate::draw::in_segment_box;
use crate::draw::rectangle_points;
use crate::point::Point;

verus! {

/// Every wall cell of a freshly built map: the border rectangle of the
/// grid, then four fixed interior maze segments.
pub open spec fn map_walls(width: i32, height: i32) -> Seq<Point> {
    rectangle_points(
        (Point { x: 0, y: 0 }),
        (Point { x: (width - 1) as i32, y: (height - 1) as i32 }),
    ) + bresenham((Point { x: 5, y: 5 }), (Point { x: 10, y: 5 })) + bresenham(
        (Point { x: (width - 5) as i32, y: 5 }),
        (Point { x: (width - 5) as i32, y: 10 }),
    ) + bresenham(
        (Point { x: (width - 5) as i32, y: (height - 5) as i32 }),
        (Point { x: (width - 10) as i32, y: (height - 5) as i32 }),
    ) + bresenham(
        (Point { x: 5, y: (height - 5) as i32 }),
        (Point { x: 5, y: (height - 10) as i32 }),
    )
}

/// `q` lies on the bounding box of one of the segments a map's walls are
/// built from: the border rectangle or one of the four maze segments.
pub open spec fn map_wall_boxes(width: i32, height: i32, q: Point) -> bool {
    ||| in_rectangle_box(
        (Point { x: 0, y: 0 }),
        (Point { x: (width - 1) as i32, y: (height - 1) as i32 }),
        q,
    )
    ||| in_segment_box((Point { x: 5, y: 5 }), (Point { x: 10, y: 5 }), q)
    ||| in_segment_box(
        (Point { x: (width - 5) as i32, y: 5 }),
        (Point { x: (width - 5) as i32, y: 10 }),
        q,
    )
    ||| in_segment_box(
        (Point { x: (width - 5) as i32, y: (height - 5) as i32 }),
        (Point { x: (width - 10) as i32, y: (height - 5) as i32 }),
        q,
    )
    ||| in_segment_box(
        (Point { x: 5, y: (height - 5) as i32 }),
        (Point { x: 5, y: (height - 10) as i32 }),
        q,
    )
}

/// The fixed set of wall cells, computed once at construction and read-only
/// afterwards. Membership is what matters; the backing sequence may repeat
/// a cell where two segments share it.
pub struct GameMap {
    walls: Vec<Point>,
}

impl View for GameMap {
    type V = Seq<Point>;

    closed spec fn view(&self) -> Seq<Point> {
        self.walls@
    }
}

impl GameMap {
    pub fn new(width: i32, height: i32) -> (m: GameMap)
        requires
            1 <= width <= 0x2000_0000,
            1 <= height <= 0x2000_0000,
        ensures
            m@ == map_walls(width, height),
            forall|i: int|
                0 <= i < m@.len() ==> map_wall_boxes(width, height, #[trigger] m@[i]),
    {
        let mut map = GameMap { walls: Vec::new() };

        map.rect(Point::new(0, 0), Point::new(width - 1, height - 1));
        map.line(Point::new(5, 5), Point::new(10, 5));
        map.line(Point::new(width - 5, 5), Point::new(width - 5, 10));
        map.line(Point::new(width - 5, height - 5), Point::new(width - 10, height - 5));
        map.line(Point::new(5, height - 5), Point::new(5, height - 10));

        proof {
            assert(map@ =~= map_walls(width, height));
            let pa = Point { x: 0, y: 0 };
            let pb = Point { x: (width - 1) as i32, y: (height - 1) as i32 };
            let s0 = rectangle_points(pa, pb);
            let s1 = bresenham((Point { x: 5, y: 5 }), (Point { x: 10, y: 5 }));
            let s2 = bresenham(
                (Point { x: (width - 5) as i32, y: 5 }),
                (Point { x: (width - 5) as i32, y: 10 }),
            );
            let s3 = bresenham(
                (Point { x: (width - 5) as i32, y: (height - 5) as i32 }),
                (Point { x: (width - 10) as i32, y: (height - 5) as i32 }),
            );
            let s4 = bresenham(
                (Point { x: 5, y: (height - 5) as i32 }),
                (Point { x: 5, y: (height - 10) as i32 }),
            );
            assert forall|i: int| 0 <= i < map@.len() implies map_wall_boxes(
                width,
                height,
                map@[i],
            ) by {
                if i < s0.len() {
                    assert(map@[i] == s0[i]);
                } else if i < s0.len() + s1.len() {
                    assert(map@[i] == s1[i - s0.len()]);
                } else if i < s0.len() + s1.len() + s2.len() {
                    assert(map@[i] == s2[i - s0.len() - s1.len()]);
                } else if i < s0.len() + s1.len() + s2.len() + s3.len() {
                    assert(map@[i] == s3[i - s0.len() - s1.len() - s2.len()]);
                } else {
                    assert(map@[i] == s4[i - s0.len() - s1.len() - s2.len() - s3.len()]);
                }
            }
        }
        map
    }

    /// Read-only access to the wall cells, for drawing.
    pub fn cells(&self) -> (r: &Vec<Point>)
        ensures
            r@ == self@,
    {
        &self.walls
    }

    pub fn wall_is_at(&self, point: Point) -> (r: bool)
        ensures
            r == self@.contains(point),
    {
        let mut i: usize = 0;
        while i < self.walls.len()
            invariant
                i <= self.walls.len(),
                forall|j: int| 0 <= j < i ==> self.walls@[j] != point,
            decreases self.walls.len() - i,
        {
            if self.walls[i] == point {
                return true;
            }
            i += 1;
        }
        false
    }

    fn rect(&mut self, p0: Point, p3: Point)
        requires
            coord_in_range(p0),
            coord_in_range(p3),
        ensures
            final(self)@ == old(self)@ + rectangle_points(p0, p3),
            forall|i: int|
                0 <= i < rectangle_points(p0, p3).len() ==> in_rectangle_box(
                    p0,
                    p3,
                    #[trigger] rectangle_points(p0, p3)[i],
                ),
    {
        let mut rectangle = Rectangle::new(p0, p3);
        loop
            invariant
                rectangle.wf(),
                self.walls@ + rectangle@ == old(self).walls@ + rectangle_points(p0, p3),
            ensures
                rectangle@.len() == 0,
                self.walls@ + rectangle@ == old(self).walls@ + rectangle_points(p0, p3),
            decreases rectangle@.len(),
        {
            match rectangle.next() {
                Some(point) => {
                    self.walls.push(point);
                    proof {
                        assert(self.walls@ + rectangle@ =~= old(self).walls@ + rectangle_points(
                            p0,
                            p3,
                        ));
                    }
                },
                None => {
                    break ;
                },
            }
        }
        proof {
            assert(self.walls@ =~= old(self).walls@ + rectangle_points(p0, p3));
        }
    }

    fn line(&mut self, p0: Point, p1: Point)
        requires
            coord_in_range(p0),
            coord_in_range(p1),
        ensures
            final(self)@ == old(self)@ + bresenham(p0, p1),
            forall|i: int|
                0 <= i < bresenham(p0, p1).len() ==> in_segment_box(
                    p0,
                    p1,
                    #[trigger] bresenham(p0, p1)[i],
                ),
    {
        let mut line = Line::new(p0, p1);
        loop
            invariant
                line.wf(),
                self.walls@ + line@ == old(self).walls@ + bresenham(p0, p1),
            ensures
                line@.len() == 0,
                self.walls@ + line@ == old(self).walls@ + bresenham(p0, p1),
            decreases line@.len(),
        {
            match line.next() {
                Some(point) => {
                    self.walls.push(point);
                    proof {
                        assert(self.walls@ + line@ =~= old(self).walls@ + bresenham(p0, p1));
                    }
                },
                None => {
                    break ;
                },
            }
        }
        proof {
            assert(self.walls@ =~= old(self).walls@ + bresenham(p0, p1));
        }
    }
}

} // verus!
