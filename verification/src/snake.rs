use vstd::prelude::*;

use crate::point::Point;

verus! {

/// The snake's starting body: four cells in a horizontal line, head first,
/// trailing in the negative-x direction.
pub open spec fn initial_body() -> Seq<Point> {
    seq![
        (Point { x: 10, y: 10 }),
        (Point { x: 9, y: 10 }),
        (Point { x: 8, y: 10 }),
        (Point { x: 7, y: 10 }),
    ]
}

/// The snake's body: an ordered sequence of occupied cells, index 0 the head,
/// the last index the tail. Under correct world usage the body never becomes
/// empty and never holds a duplicate cell; those invariants are enforced by
/// the world's collision checks, not by this structure.
pub struct Snake {
    pub points: Vec<Point>,
}

impl View for Snake {
    type V = Seq<Point>;

    open spec fn view(&self) -> Seq<Point> {
        self.points@
    }
}

impl Snake {
    pub fn new() -> (s: Snake)
        ensures
            s@ == initial_body(),
    {
        let mut points: Vec<Point> = Vec::new();
        points.push(Point::new(10, 10));
        points.push(Point::new(9, 10));
        points.push(Point::new(8, 10));
        points.push(Point::new(7, 10));
        proof {
            assert(points@ =~= initial_body());
        }
        Snake { points }
    }

    pub fn is_at(&self, point: Point) -> (r: bool)
        ensures
            r == self@.contains(point),
    {
        let mut i: usize = 0;
        while i < self.points.len()
            invariant
                i <= self.points.len(),
                forall|j: int| 0 <= j < i ==> self.points@[j] != point,
            decreases self.points.len() - i,
        {
            if self.points[i] == point {
                return true;
            }
            i += 1;
        }
        false
    }

    pub fn get_head(&self) -> (head: Point)
        requires
            self@.len() > 0,
        ensures
            head == self@[0],
    {
        self.points[0]
    }

    pub fn add_head(&mut self, point: Point)
        ensures
            final(self)@ == seq![point] + old(self)@,
    {
        self.points.insert(0, point);
        proof {
            assert(self.points@ =~= seq![point] + old(self)@);
        }
    }

    pub fn get_tail(&self) -> (tail: Point)
        requires
            self@.len() > 0,
        ensures
            tail == self@.last(),
    {
        self.points[self.points.len() - 1]
    }

    /// Removes and returns the last cell. Removing the last remaining cell
    /// would empty the body, which must never happen, so on a body of one
    /// cell or none this is a no-op returning None.
    pub fn remove_tail(&mut self) -> (tail: Option<Point>)
        ensures
            old(self)@.len() <= 1 ==> tail is None && final(self)@ == old(self)@,
            old(self)@.len() >= 2 ==> tail == Some(old(self)@.last()) && final(self)@ == old(
                self,
            )@.drop_last(),
    {
        if self.points.len() <= 1 {
            None
        } else {
            self.points.pop()
        }
    }
}

} // verus!
