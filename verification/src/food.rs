use vstd::prelude::*;

use crate::point::Point;
use crate::point::distinct_points;

verus! {

/// What eating leaves behind: `s` with the first occurrence of `point`
/// removed, or `s` unchanged when `point` is not present.
pub open spec fn eat_first(s: Seq<Point>, point: Point) -> Seq<Point>
    decreases s.len(),
{
    if s.len() == 0 {
        s
    } else if s[0] == point {
        s.drop_first()
    } else {
        seq![s[0]] + eat_first(s.drop_first(), point)
    }
}

/// A sequence without `point` is left unchanged by `eat_first`.
pub proof fn lemma_eat_first_absent(s: Seq<Point>, point: Point)
    requires
        !s.contains(point),
    ensures
        eat_first(s, point) == s,
    decreases s.len(),
{
    if s.len() > 0 {
        assert(s[0] != point);
        assert(!s.drop_first().contains(point)) by {
            if s.drop_first().contains(point) {
                let k = choose|k: int| 0 <= k < s.drop_first().len() && s.drop_first()[k] == point;
                assert(s[k + 1] == point);
            }
        }
        lemma_eat_first_absent(s.drop_first(), point);
        assert(eat_first(s, point) =~= s);
    }
}

/// When `i` is the earliest index holding `point`, `eat_first` removes
/// exactly that index.
pub proof fn lemma_eat_first_removes_at(s: Seq<Point>, point: Point, i: int)
    requires
        0 <= i < s.len(),
        s[i] == point,
        forall|j: int| 0 <= j < i ==> s[j] != point,
    ensures
        eat_first(s, point) == s.remove(i),
    decreases s.len(),
{
    if i == 0 {
        assert(eat_first(s, point) =~= s.remove(0));
    } else {
        let t = s.drop_first();
        assert(s[0] != point);
        assert(t[i - 1] == point);
        assert(forall|j: int| 0 <= j < i - 1 ==> t[j] == s[j + 1] && t[j] != point);
        lemma_eat_first_removes_at(t, point, i - 1);
        assert(eat_first(s, point) =~= s.remove(i));
    }
}

/// `eat_first` never invents an item: whatever it still contains was
/// contained before the eating.
pub proof fn lemma_eat_first_subset(s: Seq<Point>, point: Point, q: Point)
    requires
        eat_first(s, point).contains(q),
    ensures
        s.contains(q),
    decreases s.len(),
{
    if s.len() == 0 {
    } else if s[0] == point {
        let t = s.drop_first();
        let k = choose|k: int| 0 <= k < t.len() && t[k] == q;
        assert(s[k + 1] == q);
    } else {
        let t = s.drop_first();
        let e = seq![s[0]] + eat_first(t, point);
        let k = choose|k: int| 0 <= k < e.len() && e[k] == q;
        if k == 0 {
            assert(s[0] == q);
        } else {
            assert(eat_first(t, point)[k - 1] == q);
            lemma_eat_first_subset(t, point, q);
            let m = choose|m: int| 0 <= m < t.len() && t[m] == q;
            assert(s[m + 1] == q);
        }
    }
}

/// On a duplicate-free sequence, eating a point removes it entirely.
pub proof fn lemma_eat_first_gone(s: Seq<Point>, point: Point)
    requires
        distinct_points(s),
    ensures
        !eat_first(s, point).contains(point),
    decreases s.len(),
{
    if s.len() == 0 {
    } else {
        let t = s.drop_first();
        assert(forall|j: int| 0 <= j < t.len() ==> t[j] == s[j + 1]);
        assert(distinct_points(t));
        if s[0] == point {
            if t.contains(point) {
                let k = choose|k: int| 0 <= k < t.len() && t[k] == point;
                assert(s[k + 1] == s[0]);
            }
        } else {
            lemma_eat_first_gone(t, point);
            let e = seq![s[0]] + eat_first(t, point);
            if e.contains(point) {
                let k = choose|k: int| 0 <= k < e.len() && e[k] == point;
                if k == 0 {
                    assert(s[0] == point);
                } else {
                    assert(eat_first(t, point).contains(point));
                }
            }
        }
    }
}

/// Eating keeps a duplicate-free sequence duplicate-free.
pub proof fn lemma_eat_first_distinct(s: Seq<Point>, point: Point)
    requires
        distinct_points(s),
    ensures
        distinct_points(eat_first(s, point)),
    decreases s.len(),
{
    if s.len() == 0 {
    } else {
        let t = s.drop_first();
        assert(forall|j: int| 0 <= j < t.len() ==> t[j] == s[j + 1]);
        assert(distinct_points(t));
        if s[0] == point {
        } else {
            lemma_eat_first_distinct(t, point);
            let e = seq![s[0]] + eat_first(t, point);
            assert forall|i: int, j: int| 0 <= i < j < e.len() implies e[i] != e[j] by {
                if i == 0 {
                    assert(e[j] == eat_first(t, point)[j - 1]);
                    assert(eat_first(t, point).contains(e[j]));
                    lemma_eat_first_subset(t, point, e[j]);
                    let m = choose|m: int| 0 <= m < t.len() && t[m] == e[j];
                    assert(s[m + 1] == e[j]);
                    assert(s[0] != s[m + 1]);
                } else {
                    assert(e[i] == eat_first(t, point)[i - 1]);
                    assert(e[j] == eat_first(t, point)[j - 1]);
                }
            }
        }
    }
}

/// Appending a fresh point keeps a duplicate-free sequence duplicate-free.
pub proof fn lemma_distinct_push(s: Seq<Point>, point: Point)
    requires
        distinct_points(s),
        !s.contains(point),
    ensures
        distinct_points(s.push(point)),
{
    let e = s.push(point);
    assert forall|i: int, j: int| 0 <= i < j < e.len() implies e[i] != e[j] by {
        if j == s.len() {
            assert(e[i] == s[i]);
            if s[i] == point {
                assert(s.contains(point));
            }
        } else {
            assert(e[i] == s[i] && e[j] == s[j]);
        }
    }
}

/// The set of active food items, one point per consumable.
/// The world keeps every stored point distinct and off the walls and the
/// snake at the moment it is placed; this structure itself is just a bag.
pub struct Food {
    pub food: Vec<Point>,
}

impl View for Food {
    type V = Seq<Point>;

    open spec fn view(&self) -> Seq<Point> {
        self.food@
    }
}

impl Food {
    pub fn new() -> (f: Food)
        ensures
            f@ == Seq::<Point>::empty(),
    {
        Food { food: Vec::new() }
    }

    pub fn is_at(&self, point: Point) -> (r: bool)
        ensures
            r == self@.contains(point),
    {
        let mut i: usize = 0;
        while i < self.food.len()
            invariant
                i <= self.food.len(),
                forall|j: int| 0 <= j < i ==> self.food@[j] != point,
            decreases self.food.len() - i,
        {
            if self.food[i] == point {
                return true;
            }
            i += 1;
        }
        false
    }

    /// Removes the first stored item equal to `point`; a point that is not
    /// present is silently ignored.
    pub fn eat(&mut self, point: Point)
        ensures
            final(self)@ == eat_first(old(self)@, point),
            !old(self)@.contains(point) ==> final(self)@ == old(self)@,
    {
        let mut i: usize = 0;
        while i < self.food.len()
            invariant
                i <= self.food.len(),
                self.food@ == old(self).food@,
                forall|j: int| 0 <= j < i ==> self.food@[j] != point,
            decreases self.food.len() - i,
        {
            if self.food[i] == point {
                proof {
                    lemma_eat_first_removes_at(self@, point, i as int);
                }
                self.food.remove(i);
                return ;
            }
            i += 1;
        }
        proof {
            assert(!self@.contains(point));
            lemma_eat_first_absent(self@, point);
        }
    }

    pub fn add(&mut self, food: Point)
        ensures
            final(self)@ == old(self)@.push(food),
    {
        self.food.push(food);
    }
}

} // verus!
