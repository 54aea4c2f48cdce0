use vstd::prelude::*;

use rand::seq::SliceRandom;

use crate::food::Food;
use crate::food::eat_first;
use crate::food::lemma_distinct_push;
use crate::food::lemma_eat_first_distinct;
use crate::food::lemma_eat_first_gone;
use crate::map::GameMap;
use crate::map::map_wall_boxes;
use crate::map::map_walls;
use crate::point::Point;
use crate::point::distinct_points;
use crate::snake::Snake;
use crate::snake::initial_body;

verus! {

/// Grid width of the standard world, in cells.
pub const WIDTH: usize = 32;

/// Grid height of the standard world, in cells.
pub const HEIGHT: usize = 24;

/// Milliseconds between ticks when a world starts.
pub const START_TICK_MS: u64 = 500;

/// Fixed number of milliseconds the tick interval shrinks by on every
/// growth tick.
pub const SPEED_STEP_MS: u64 = 10;

/// Score awarded for each food item eaten.
pub const FOOD_SCORE: u32 = 10;

/// What a single tick reports, in the order it happened. Durations are
/// carried as whole milliseconds.
#[derive(Clone, Copy, Debug, PartialEq, Eq)]
pub enum GameEvent {
    FoodEaten(Point, Option<Point>),
    SnakeGrown(Point),
    AddPoints(u32),
    SpeedChanged(u64),
    GameOver,
}

#[derive(Clone, Copy, Debug, PartialEq, Eq, Structural)]
pub enum Direction {
    Left,
    Right,
    Up,
    Down,
}

/// Unit displacement of `p` one cell in direction `d`, with unbounded
/// coordinates: the y axis grows downward, so Up decreases y.
pub open spec fn displaced(p: Point, d: Direction) -> (int, int) {
    match d {
        Direction::Left => (p.x - 1, p.y as int),
        Direction::Right => (p.x + 1, p.y as int),
        Direction::Up => (p.x as int, p.y - 1),
        Direction::Down => (p.x as int, p.y + 1),
    }
}

impl Point {
    pub fn move_in_direction(&mut self, direction: Direction)
        requires
            i32::MIN <= displaced(*old(self), direction).0 <= i32::MAX,
            i32::MIN <= displaced(*old(self), direction).1 <= i32::MAX,
        ensures
            final(self).x == displaced(*old(self), direction).0,
            final(self).y == displaced(*old(self), direction).1,
    {
        match direction {
            Direction::Left => self.x = self.x - 1,
            Direction::Right => self.x = self.x + 1,
            Direction::Up => self.y = self.y - 1,
            Direction::Down => self.y = self.y + 1,
        }
    }
}

/// Screen and grid geometry. The grid dimensions are fixed at world
/// construction; the screen side is refreshed from window-resize reports.
#[derive(Clone, Copy, Debug)]
pub struct Dimentions {
    pub screen_width: usize,
    pub screen_height: usize,
    pub grid_width: usize,
    pub grid_height: usize,
    pub block_size: usize,
}

impl Dimentions {
    /// Grid dimensions a world can work with: positive, and small enough
    /// that every cell coordinate fits comfortably in an `i32`.
    pub open spec fn wf(self) -> bool {
        &&& 1 <= self.grid_width <= 0x2000_0000
        &&& 1 <= self.grid_height <= 0x2000_0000
    }

    /// Records a new screen size and recomputes the block size: the largest
    /// whole number of pixels per grid cell that fits both ways.
    pub fn update_screen_size(&mut self, width: usize, height: usize)
        requires
            old(self).grid_width >= 1,
            old(self).grid_height >= 1,
        ensures
            final(self).screen_width == width,
            final(self).screen_height == height,
            final(self).grid_width == old(self).grid_width,
            final(self).grid_height == old(self).grid_height,
            final(self).block_size == if width / old(self).grid_width <= height / old(
                self,
            ).grid_height {
                width / old(self).grid_width
            } else {
                height / old(self).grid_height
            },
    {
        self.screen_width = width;
        self.screen_height = height;

        let block_width = self.screen_width / self.grid_width;
        let block_height = self.screen_height / self.grid_height;
        self.block_size = if block_width <= block_height {
            block_width
        } else {
            block_height
        };
    }
}

/// The whole game state: walls, snake, food, the direction the input layer
/// last asked for, and the current tick interval. Advanced one tick at a
/// time; each tick reports what happened as an ordered event list.
pub struct World {
    pub dims: Dimentions,
    pub last_direction: Direction,
    /// Milliseconds between ticks; shrinks as the snake grows.
    pub tick_speed: u64,
    /// Set once a tick collides; later ticks only repeat GameOver.
    pub game_over: bool,
    pub map: GameMap,
    pub snake: Snake,
    pub food: Food,
}

impl World {
    /// Every world in play satisfies this: a nonempty snake, workable grid
    /// dimensions, and no food cell listed twice.
    pub open spec fn wf(self) -> bool {
        &&& self.snake@.len() >= 1
        &&& self.dims.wf()
        &&& distinct_points(self.food@)
    }

    /// Coordinates of the cell the head would move into, before any bounds
    /// concern.
    pub open spec fn candidate_xy_in(self, d: Direction) -> (int, int) {
        displaced(self.snake@[0], d)
    }

    /// The candidate coordinates stay representable as an `i32` point.
    pub open spec fn candidate_fits_in(self, d: Direction) -> bool {
        &&& i32::MIN <= self.candidate_xy_in(d).0 <= i32::MAX
        &&& i32::MIN <= self.candidate_xy_in(d).1 <= i32::MAX
    }

    pub open spec fn candidate_fits(self) -> bool {
        self.candidate_fits_in(self.last_direction)
    }

    /// The cell the head would move into.
    pub open spec fn candidate_head_in(self, d: Direction) -> Point {
        Point { x: self.candidate_xy_in(d).0 as i32, y: self.candidate_xy_in(d).1 as i32 }
    }

    pub open spec fn candidate_head(self) -> Point {
        self.candidate_head_in(self.last_direction)
    }

    /// A move is legal exactly when the candidate head hits neither the
    /// snake's own body nor a wall.
    pub open spec fn can_move_in(self, d: Direction) -> bool {
        &&& !self.snake@.contains(self.candidate_head_in(d))
        &&& !self.map@.contains(self.candidate_head_in(d))
    }

    pub open spec fn can_move(self) -> bool {
        self.can_move_in(self.last_direction)
    }

    /// A cell occupied by none of wall, snake and food.
    pub open spec fn is_free_spec(self, q: Point) -> bool {
        &&& !self.snake@.contains(q)
        &&& !self.map@.contains(q)
        &&& !self.food@.contains(q)
    }

    /// The cells the food spawn scan covers. The scan stops one short of
    /// the last row and column.
    pub open spec fn in_scan_region(self, q: Point) -> bool {
        &&& 0 <= q.x < self.dims.grid_width - 1
        &&& 0 <= q.y < self.dims.grid_height - 1
    }

    /// Free in the intermediate state a growth tick spawns into: the new
    /// head added, no tail removed, and the eaten item already gone.
    pub open spec fn mid_state_free(self, d: Direction, q: Point) -> bool {
        &&& !(seq![self.candidate_head_in(d)] + self.snake@).contains(q)
        &&& !self.map@.contains(q)
        &&& !eat_first(self.food@, self.candidate_head_in(d)).contains(q)
    }

    /// The full effect of one legal move in direction `d` on world `pre`:
    /// the head advances; when it lands on food, the snake keeps its tail,
    /// the eaten item leaves, a replacement is spawned if any cell is free,
    /// the tick interval shrinks one step and the four events report it all;
    /// otherwise the tail leaves with the head's arrival and nothing is
    /// reported.
    pub open spec fn move_result(pre: World, d: Direction, post: World, events: Seq<GameEvent>) -> bool {
        let cand = pre.candidate_head_in(d);
        &&& post.map == pre.map
        &&& post.dims == pre.dims
        &&& post.last_direction == pre.last_direction
        &&& post.game_over == pre.game_over
        &&& if pre.food@.contains(cand) {
            &&& post.snake@ == seq![cand] + pre.snake@
            &&& post.tick_speed == pre.tick_speed - SPEED_STEP_MS
            &&& events.len() == 4
            &&& events[1] == GameEvent::SnakeGrown(pre.snake@.last())
            &&& events[2] == GameEvent::AddPoints(FOOD_SCORE)
            &&& events[3] == GameEvent::SpeedChanged(post.tick_speed)
            &&& match events[0] {
                GameEvent::FoodEaten(eaten, replacement) => {
                    &&& eaten == cand
                    &&& match replacement {
                        Some(point) => {
                            &&& pre.in_scan_region(point)
                            &&& pre.mid_state_free(d, point)
                            &&& post.food@ == eat_first(pre.food@, cand).push(point)
                        },
                        None => {
                            &&& post.food@ == eat_first(pre.food@, cand)
                            &&& forall|q: Point|
                                pre.in_scan_region(q) ==> !pre.mid_state_free(d, q)
                        },
                    }
                },
                _ => false,
            }
        } else {
            &&& post.snake@ == (seq![cand] + pre.snake@).drop_last()
            &&& post.food@ == pre.food@
            &&& post.tick_speed == pre.tick_speed
            &&& events == Seq::<GameEvent>::empty()
        }
    }

    /// The full effect of one tick: a finished game only repeats GameOver;
    /// an illegal candidate ends the game with the single GameOver event and
    /// no other change; a legal one moves the snake as `move_result` says.
    pub open spec fn tick_result(pre: World, post: World, events: Seq<GameEvent>) -> bool {
        if pre.game_over {
            &&& post == pre
            &&& events == seq![GameEvent::GameOver]
        } else if !pre.can_move() {
            &&& post.snake == pre.snake
            &&& post.food == pre.food
            &&& post.map == pre.map
            &&& post.dims == pre.dims
            &&& post.last_direction == pre.last_direction
            &&& post.tick_speed == pre.tick_speed
            &&& post.game_over
            &&& events == seq![GameEvent::GameOver]
        } else {
            World::move_result(pre, pre.last_direction, post, events)
        }
    }

    /// On the standard board a world with fewer than three food items
    /// always has a free cell in the spawn scan region: the cells (1,1),
    /// (2,1) and (3,1) lie inside the scan region and off every wall
    /// segment's bounding box and off the starting body, and at most two
    /// of them can hold food.
    proof fn lemma_standard_board_has_free_cell(w: World)
        requires
            w.dims.grid_width == 32,
            w.dims.grid_height == 24,
            w.snake@ == initial_body(),
            forall|i: int|
                0 <= i < w.map@.len() ==> map_wall_boxes(32, 24, #[trigger] w.map@[i]),
            w.food@.len() <= 2,
        ensures
            exists|q: Point| w.in_scan_region(q) && w.is_free_spec(q),
    {
        let c1 = Point { x: 1, y: 1 };
        let c2 = Point { x: 2, y: 1 };
        let c3 = Point { x: 3, y: 1 };
        assert(!w.map@.contains(c1) && !w.map@.contains(c2) && !w.map@.contains(c3)) by {
            if w.map@.contains(c1) {
                let k = choose|k: int| 0 <= k < w.map@.len() && w.map@[k] == c1;
                assert(map_wall_boxes(32, 24, c1));
            }
            if w.map@.contains(c2) {
                let k = choose|k: int| 0 <= k < w.map@.len() && w.map@[k] == c2;
                assert(map_wall_boxes(32, 24, c2));
            }
            if w.map@.contains(c3) {
                let k = choose|k: int| 0 <= k < w.map@.len() && w.map@[k] == c3;
                assert(map_wall_boxes(32, 24, c3));
            }
        }
        assert(w.snake@.len() == 4);
        assert(w.snake@[0].y == 10 && w.snake@[1].y == 10 && w.snake@[2].y == 10 && w.snake@[3].y
            == 10);
        assert(!w.snake@.contains(c1) && !w.snake@.contains(c2) && !w.snake@.contains(c3)) by {
            if w.snake@.contains(c1) {
                let k = choose|k: int| 0 <= k < w.snake@.len() && w.snake@[k] == c1;
            }
            if w.snake@.contains(c2) {
                let k = choose|k: int| 0 <= k < w.snake@.len() && w.snake@[k] == c2;
            }
            if w.snake@.contains(c3) {
                let k = choose|k: int| 0 <= k < w.snake@.len() && w.snake@[k] == c3;
            }
        }
        if w.food@.contains(c1) && w.food@.contains(c2) && w.food@.contains(c3) {
            let k1 = choose|k: int| 0 <= k < w.food@.len() && w.food@[k] == c1;
            let k2 = choose|k: int| 0 <= k < w.food@.len() && w.food@[k] == c2;
            let k3 = choose|k: int| 0 <= k < w.food@.len() && w.food@[k] == c3;
            assert(k1 != k2 && k1 != k3 && k2 != k3);
            assert(false);
        }
        if !w.food@.contains(c1) {
            assert(w.in_scan_region(c1) && w.is_free_spec(c1));
        } else if !w.food@.contains(c2) {
            assert(w.in_scan_region(c2) && w.is_free_spec(c2));
        } else {
            assert(w.in_scan_region(c3) && w.is_free_spec(c3));
        }
    }

    pub fn new() -> (w: World)
        ensures
            w.wf(),
            !w.game_over,
            w.dims.grid_width == WIDTH,
            w.dims.grid_height == HEIGHT,
            w.dims.screen_width == 1280,
            w.dims.screen_height == 720,
            w.dims.block_size == 30,
            w.last_direction == Direction::Right,
            w.tick_speed == START_TICK_MS,
            w.snake@ == initial_body(),
            w.map@ == map_walls(32, 24),
            w.food@.len() == 3,
            forall|i: int|
                0 <= i < w.food@.len() ==> w.in_scan_region(#[trigger] w.food@[i])
                    && !w.map@.contains(w.food@[i]) && !w.snake@.contains(w.food@[i]),
    {
        let mut world = World {
            dims: Dimentions {
                grid_width: WIDTH,
                grid_height: HEIGHT,
                screen_width: 1280,
                screen_height: 720,
                block_size: 30,
            },
            last_direction: Direction::Right,
            tick_speed: START_TICK_MS,
            game_over: false,
            map: GameMap::new(WIDTH as i32, HEIGHT as i32),
            snake: Snake::new(),
            food: Food::new(),
        };

        // Each spawn must succeed: the standard board always keeps a free
        // cell while fewer than three food items are out.
        let ghost initial = world;
        let first = world.add_food();
        proof {
            if first is None {
                Self::lemma_standard_board_has_free_cell(initial);
                let q = choose|q: Point| initial.in_scan_region(q) && initial.is_free_spec(q);
                assert(initial.in_scan_region(q) ==> !initial.is_free_spec(q));
                assert(false);
            }
        }
        let ghost after_first = world;
        let second = world.add_food();
        proof {
            if second is None {
                Self::lemma_standard_board_has_free_cell(after_first);
                let q = choose|q: Point|
                    after_first.in_scan_region(q) && after_first.is_free_spec(q);
                assert(after_first.in_scan_region(q) ==> !after_first.is_free_spec(q));
                assert(false);
            }
        }
        let ghost after_second = world;
        let third = world.add_food();
        proof {
            if third is None {
                Self::lemma_standard_board_has_free_cell(after_second);
                let q = choose|q: Point|
                    after_second.in_scan_region(q) && after_second.is_free_spec(q);
                assert(after_second.in_scan_region(q) ==> !after_second.is_free_spec(q));
                assert(false);
            }
        }

        world
    }

    pub fn tick(&mut self) -> (events: Vec<GameEvent>)
        requires
            old(self).wf(),
            !old(self).game_over ==> old(self).candidate_fits(),
            !old(self).game_over && old(self).can_move() && old(self).food@.contains(
                old(self).candidate_head(),
            ) ==> old(self).tick_speed >= SPEED_STEP_MS,
        ensures
            final(self).wf(),
            World::tick_result(*old(self), *final(self), events@),
    {
        let mut events: Vec<GameEvent> = Vec::new();
        if self.game_over {
            events.push(GameEvent::GameOver);
            proof {
                assert(events@ =~= seq![GameEvent::GameOver]);
            }
            return events;
        }
        if self.can_move_in_direction(self.last_direction) {
            let mut moved = self.move_in_direction(self.last_direction);
            events.append(&mut moved);
            proof {
                assert(events@ =~= Seq::<GameEvent>::empty() + events@);
            }
        } else {
            self.game_over = true;
            events.push(GameEvent::GameOver);
            proof {
                assert(events@ =~= seq![GameEvent::GameOver]);
            }
        }
        events
    }

    fn can_move_in_direction(&self, direction: Direction) -> (r: bool)
        requires
            self.snake@.len() >= 1,
            self.candidate_fits_in(direction),
        ensures
            r == self.can_move_in(direction),
    {
        let mut new_head = self.snake.get_head();
        new_head.move_in_direction(direction);
        proof {
            assert(new_head == self.candidate_head_in(direction));
        }

        let hit_self = self.snake.is_at(new_head);
        let hit_wall = self.map.wall_is_at(new_head);

        !(hit_self || hit_wall)
    }

    fn move_in_direction(&mut self, direction: Direction) -> (events: Vec<GameEvent>)
        requires
            old(self).wf(),
            old(self).candidate_fits_in(direction),
            old(self).can_move_in(direction),
            old(self).food@.contains(old(self).candidate_head_in(direction)) ==> old(
                self,
            ).tick_speed >= SPEED_STEP_MS,
        ensures
            final(self).wf(),
            World::move_result(*old(self), direction, *final(self), events@),
    {
        let ghost pre = *self;
        let ghost cand = self.candidate_head_in(direction);

        let mut events: Vec<GameEvent> = Vec::new();

        // The point that will become the new head.
        let mut head = self.snake.get_head();
        head.move_in_direction(direction);
        proof {
            assert(head == cand);
        }

        self.snake.add_head(head);

        if self.food.is_at(head) {
            self.food.eat(head);
            proof {
                lemma_eat_first_distinct(pre.food@, cand);
            }
            let ghost mid = *self;
            let new_food = self.add_food();
            proof {
                if new_food is None {
                    assert forall|q: Point| pre.in_scan_region(q) implies !pre.mid_state_free(
                        direction,
                        q,
                    ) by {
                        assert(mid.in_scan_region(q) ==> !mid.is_free_spec(q));
                    }
                }
            }
            events.push(GameEvent::FoodEaten(head, new_food));
            events.push(GameEvent::SnakeGrown(self.snake.get_tail()));
            events.push(GameEvent::AddPoints(FOOD_SCORE));
            self.tick_speed = self.tick_speed - SPEED_STEP_MS;
            events.push(GameEvent::SpeedChanged(self.tick_speed));
            proof {
                assert(self.snake@.last() == pre.snake@.last());
                assert(events@ =~= seq![
                    GameEvent::FoodEaten(cand, new_food),
                    GameEvent::SnakeGrown(pre.snake@.last()),
                    GameEvent::AddPoints(FOOD_SCORE),
                    GameEvent::SpeedChanged(self.tick_speed),
                ]);
            }
        } else {
            self.snake.remove_tail();
        }

        events
    }

    fn is_free(&self, point: Point) -> (r: bool)
        ensures
            r == self.is_free_spec(point),
    {
        let hit_snake = self.snake.is_at(point);
        let hit_wall = self.map.wall_is_at(point);
        let hit_food = self.food.is_at(point);

        !hit_snake && !hit_wall && !hit_food
    }

    /// Scans the grid and lists every free cell of the scan region, each
    /// exactly once.
    fn get_free_spaces(&self) -> (free: Vec<Point>)
        requires
            self.dims.wf(),
        ensures
            forall|q: Point|
                #[trigger] free@.contains(q) <==> self.in_scan_region(q) && self.is_free_spec(q),
            distinct_points(free@),
    {
        let mut free: Vec<Point> = Vec::new();

        let mut x: usize = 0;
        while x < self.dims.grid_width - 1
            invariant
                self.dims.wf(),
                x <= self.dims.grid_width - 1,
                distinct_points(free@),
                forall|q: Point|
                    #[trigger] free@.contains(q) <==> (0 <= q.x < x && 0 <= q.y
                        < self.dims.grid_height - 1 && self.is_free_spec(q)),
            decreases self.dims.grid_width - 1 - x,
        {
            let mut y: usize = 0;
            while y < self.dims.grid_height - 1
                invariant
                    self.dims.wf(),
                    x < self.dims.grid_width - 1,
                    y <= self.dims.grid_height - 1,
                    distinct_points(free@),
                    forall|q: Point|
                        #[trigger] free@.contains(q) <==> ((0 <= q.x < x && 0 <= q.y
                            < self.dims.grid_height - 1) || (q.x == x && 0 <= q.y < y))
                            && self.is_free_spec(q),
                decreases self.dims.grid_height - 1 - y,
            {
                let point = Point::new(x as i32, y as i32);
                if self.is_free(point) {
                    let ghost before = free@;
                    proof {
                        lemma_distinct_push(before, point);
                    }
                    free.push(point);
                    proof {
                        assert forall|q: Point| #[trigger]
                            free@.contains(q) <==> ((0 <= q.x < x && 0 <= q.y
                                < self.dims.grid_height - 1) || (q.x == x && 0 <= q.y < y + 1))
                                && self.is_free_spec(q) by {
                            if free@.contains(q) {
                                let k = choose|k: int| 0 <= k < free@.len() && free@[k] == q;
                                if k < before.len() {
                                    assert(before.contains(q));
                                }
                            }
                            if ((0 <= q.x < x && 0 <= q.y < self.dims.grid_height - 1) || (q.x == x
                                && 0 <= q.y < y + 1)) && self.is_free_spec(q) {
                                if q == point {
                                    assert(free@[free@.len() - 1] == q);
                                } else {
                                    assert(before.contains(q));
                                    let k = choose|k: int|
                                        0 <= k < before.len() && before[k] == q;
                                    assert(free@[k] == q);
                                }
                            }
                        }
                    }
                }
                y += 1;
            }
            x += 1;
        }
        free
    }

    pub fn add_food(&mut self) -> (spawned: Option<Point>)
        requires
            old(self).wf(),
        ensures
            final(self).wf(),
            final(self).snake == old(self).snake,
            final(self).map == old(self).map,
            final(self).dims == old(self).dims,
            final(self).last_direction == old(self).last_direction,
            final(self).tick_speed == old(self).tick_speed,
            final(self).game_over == old(self).game_over,
            match spawned {
                Some(point) => {
                    &&& old(self).in_scan_region(point)
                    &&& old(self).is_free_spec(point)
                    &&& final(self).food@ == old(self).food@.push(point)
                },
                None => {
                    &&& final(self).food@ == old(self).food@
                    &&& forall|q: Point|
                        old(self).in_scan_region(q) ==> !old(self).is_free_spec(q)
                },
            },
    {
        let free_spaces = self.get_free_spaces();

        let food = choose_point(&free_spaces);

        if let Some(f) = food {
            proof {
                lemma_distinct_push(self.food@, f);
            }
            self.food.add(f);
        } else {
            proof {
                assert forall|q: Point| old(self).in_scan_region(q) implies !old(
                    self,
                ).is_free_spec(q) by {
                    if old(self).is_free_spec(q) {
                        assert(free_spaces@.contains(q));
                    }
                }
            }
        }

        food
    }
}

/// Law: on a tick whose candidate cell is neither a wall nor part of the
/// body, the head advances to that cell, and the body length is unchanged
/// on a plain move and one longer when the cell held food.
pub proof fn lemma_tick_advances_head(pre: World, post: World, events: Seq<GameEvent>)
    requires
        pre.wf(),
        !pre.game_over,
        pre.can_move(),
        World::tick_result(pre, post, events),
    ensures
        post.snake@.len() >= 1,
        post.snake@[0] == pre.candidate_head(),
        pre.food@.contains(pre.candidate_head()) ==> post.snake@.len() == pre.snake@.len() + 1,
        !pre.food@.contains(pre.candidate_head()) ==> post.snake@.len() == pre.snake@.len(),
{
    let cand = pre.candidate_head();
    if !pre.food@.contains(cand) {
        assert(post.snake@ == (seq![cand] + pre.snake@).drop_last());
        assert((seq![cand] + pre.snake@)[0] == cand);
    }
}

/// Law: on a tick whose candidate cell hits a wall or the body, the only
/// event is GameOver and nothing on the board changes.
pub proof fn lemma_tick_collision_stops(pre: World, post: World, events: Seq<GameEvent>)
    requires
        !pre.game_over,
        !pre.can_move(),
        World::tick_result(pre, post, events),
    ensures
        events == seq![GameEvent::GameOver],
        post.snake@ == pre.snake@,
        post.food@ == pre.food@,
        post.map@ == pre.map@,
        post.tick_speed == pre.tick_speed,
{
}

/// Law: a FoodEaten event names a point that was food immediately before
/// the tick and is food no longer immediately after it.
pub proof fn lemma_food_eaten(
    pre: World,
    post: World,
    events: Seq<GameEvent>,
    i: int,
    eaten: Point,
    replacement: Option<Point>,
)
    requires
        pre.wf(),
        World::tick_result(pre, post, events),
        0 <= i < events.len(),
        events[i] == GameEvent::FoodEaten(eaten, replacement),
    ensures
        pre.food@.contains(eaten),
        !post.food@.contains(eaten),
{
    let cand = pre.candidate_head();
    if pre.game_over || !pre.can_move() {
        assert(events[i] == GameEvent::GameOver);
    } else if !pre.food@.contains(cand) {
        assert(events.len() == 0);
    } else {
        assert(i == 0);
        assert(eaten == cand);
        lemma_eat_first_gone(pre.food@, cand);
        match replacement {
            Some(point) => {
                assert((seq![cand] + pre.snake@)[0] == cand);
                assert(point != cand);
                assert(post.food@ == eat_first(pre.food@, cand).push(point));
                if post.food@.contains(cand) {
                    let k = choose|k: int| 0 <= k < post.food@.len() && post.food@[k] == cand;
                    if k < post.food@.len() - 1 {
                        assert(eat_first(pre.food@, cand)[k] == cand);
                    }
                }
            },
            None => {
            },
        }
    }
}

/// Law: a SnakeGrown event comes only with a growth tick: the body after
/// the tick is exactly one cell longer than before it.
pub proof fn lemma_snake_grown(
    pre: World,
    post: World,
    events: Seq<GameEvent>,
    i: int,
    new_tail: Point,
)
    requires
        pre.wf(),
        World::tick_result(pre, post, events),
        0 <= i < events.len(),
        events[i] == GameEvent::SnakeGrown(new_tail),
    ensures
        post.snake@.len() == pre.snake@.len() + 1,
        new_tail == pre.snake@.last(),
{
    if pre.game_over || !pre.can_move() {
        assert(events[i] == GameEvent::GameOver);
    } else if !pre.food@.contains(pre.candidate_head()) {
        assert(events.len() == 0);
    } else {
        assert(i == 1);
    }
}

/// Law: the tick interval shrinks, by exactly the fixed step, on ticks
/// that emit FoodEaten, and stays what it was on every other tick.
pub proof fn lemma_speed_changes_only_on_eating(pre: World, post: World, events: Seq<GameEvent>)
    requires
        pre.wf(),
        World::tick_result(pre, post, events),
    ensures
        (exists|i: int| 0 <= i < events.len() && #[trigger] events[i] is FoodEaten)
            ==> post.tick_speed == pre.tick_speed - SPEED_STEP_MS,
        !(exists|i: int| 0 <= i < events.len() && #[trigger] events[i] is FoodEaten)
            ==> post.tick_speed == pre.tick_speed,
{
    if pre.game_over || !pre.can_move() {
        assert(forall|i: int| 0 <= i < events.len() ==> #[trigger] events[i] == GameEvent::GameOver);
    } else if pre.food@.contains(pre.candidate_head()) {
        assert(events[0] is FoodEaten);
    } else {
        assert(events.len() == 0);
    }
}

/// Law: legal play never duplicates a body cell. A tick checks the
/// candidate head against the whole body before moving, so a body without
/// duplicate cells stays that way.
pub proof fn lemma_tick_preserves_distinct_body(pre: World, post: World, events: Seq<GameEvent>)
    requires
        pre.wf(),
        distinct_points(pre.snake@),
        World::tick_result(pre, post, events),
    ensures
        distinct_points(post.snake@),
{
    if !pre.game_over && pre.can_move() {
        let cand = pre.candidate_head();
        let grown = seq![cand] + pre.snake@;
        assert forall|i: int, j: int| 0 <= i < j < grown.len() implies grown[i] != grown[j] by {
            if i == 0 {
                assert(grown[j] == pre.snake@[j - 1]);
                if grown[j] == cand {
                    assert(pre.snake@.contains(cand));
                }
            } else {
                assert(grown[i] == pre.snake@[i - 1] && grown[j] == pre.snake@[j - 1]);
            }
        }
        if !pre.food@.contains(cand) {
            assert(forall|k: int|
                0 <= k < post.snake@.len() ==> post.snake@[k] == grown[k]);
        }
    }
}

/// Relies on rand's SliceRandom::choose: it hands back some element of the
/// slice, or None exactly when the slice is empty. Which element comes back
/// is up to the thread-local generator, so nothing more is promised of it.
#[verifier::external_body]
fn choose_point(points: &Vec<Point>) -> (r: Option<Point>)
    ensures
        match r {
            Some(point) => points@.contains(point),
            None => points@.len() == 0,
        },
{
    let mut rng = rand::thread_rng();
    points.as_slice().choose(&mut rng).copied()
}

} // verus!
