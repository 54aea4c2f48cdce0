use snake_core::food::Food;
use snake_core::point::Point;
use snake_core::world::Direction;
use snake_core::world::GameEvent;
use snake_core::world::World;

#[test]
fn new_world_setup() {
    let world = World::new();
    assert_eq!(world.dims.grid_width, 32);
    assert_eq!(world.dims.grid_height, 24);
    assert_eq!(world.tick_speed, 500);
    assert!(!world.game_over);
    assert_eq!(world.snake.points.len(), 4);
    assert_eq!(world.food.food.len(), 3);
    for point in world.food.food.iter() {
        assert!(!world.map.wall_is_at(*point));
        assert!(!world.snake.is_at(*point));
        assert!(point.x >= 0 && point.x < 31);
        assert!(point.y >= 0 && point.y < 23);
    }
}

#[test]
fn tick_plain_move() {
    let mut world = World::new();
    // An open path to the right and no food anywhere.
    world.food = Food::new();

    let events = world.tick();

    assert!(events.is_empty());
    assert_eq!(world.snake.get_head(), Point::new(11, 10));
    assert_eq!(world.snake.points.len(), 4);
    assert!(!world.snake.is_at(Point::new(7, 10)));
}

#[test]
fn tick_eats_food_and_reports_it() {
    let mut world = World::new();
    world.food = Food::new();
    world.food.add(Point::new(11, 10));

    let events = world.tick();

    assert_eq!(events.len(), 4);
    match events[0] {
        GameEvent::FoodEaten(eaten, replacement) => {
            assert_eq!(eaten, Point::new(11, 10));
            if let Some(point) = replacement {
                assert!(world.food.is_at(point));
                assert!(!world.map.wall_is_at(point));
                assert!(!world.snake.is_at(point));
            }
        },
        _ => panic!("expected FoodEaten first"),
    }
    assert_eq!(events[1], GameEvent::SnakeGrown(Point::new(7, 10)));
    assert_eq!(events[2], GameEvent::AddPoints(10));
    assert_eq!(events[3], GameEvent::SpeedChanged(490));

    assert_eq!(world.tick_speed, 490);
    assert_eq!(world.snake.points.len(), 5);
    assert_eq!(world.snake.get_head(), Point::new(11, 10));
    assert_eq!(world.snake.get_tail(), Point::new(7, 10));
    assert!(!world.food.is_at(Point::new(11, 10)));
}

#[test]
fn tick_speed_unchanged_without_eating() {
    let mut world = World::new();
    world.food = Food::new();
    let before = world.tick_speed;
    world.tick();
    assert_eq!(world.tick_speed, before);
}

#[test]
fn tick_into_own_body_is_game_over() {
    let mut world = World::new();
    // The cell left of the head, (9, 10), is part of the body.
    world.last_direction = Direction::Left;
    let body_before = world.snake.points.clone();

    let events = world.tick();

    assert_eq!(events, vec![GameEvent::GameOver]);
    assert_eq!(world.snake.points, body_before);
    assert!(world.game_over);
}

#[test]
fn tick_into_wall_is_game_over() {
    let mut world = World::new();
    world.snake.points = vec![Point::new(1, 1), Point::new(2, 1)];
    world.last_direction = Direction::Left;
    let body_before = world.snake.points.clone();

    let events = world.tick();

    assert_eq!(events, vec![GameEvent::GameOver]);
    assert_eq!(world.snake.points, body_before);
    assert!(world.game_over);
}

#[test]
fn game_over_is_sticky() {
    let mut world = World::new();
    world.last_direction = Direction::Left;
    world.tick();
    assert!(world.game_over);

    // Even with a clear path, a finished game only repeats GameOver.
    world.last_direction = Direction::Right;
    let body_before = world.snake.points.clone();
    let events = world.tick();
    assert_eq!(events, vec![GameEvent::GameOver]);
    assert_eq!(world.snake.points, body_before);
}

#[test]
fn add_food_spawns_on_a_free_cell() {
    let mut world = World::new();
    let food_before = world.food.food.clone();

    let spawned = world.add_food();

    // The default grid has plenty of free cells.
    let point = spawned.expect("an open grid must yield a spawn point");
    assert!(!world.map.wall_is_at(point));
    assert!(!world.snake.is_at(point));
    assert!(!food_before.contains(&point));
    assert!(world.food.is_at(point));
    assert!(point.x >= 0 && point.x < 31);
    assert!(point.y >= 0 && point.y < 23);
}

#[test]
fn update_screen_size_picks_the_tighter_fit() {
    let mut world = World::new();
    world.dims.update_screen_size(1280, 720);
    assert_eq!(world.dims.screen_width, 1280);
    assert_eq!(world.dims.screen_height, 720);
    // 1280 / 32 = 40 and 720 / 24 = 30; the block must fit both ways.
    assert_eq!(world.dims.block_size, 30);
}

#[test]
fn directions_move_the_head_one_cell() {
    let cases = [
        (Direction::Right, Point::new(11, 10)),
        (Direction::Left, Point::new(9, 10)),
        (Direction::Up, Point::new(10, 9)),
        (Direction::Down, Point::new(10, 11)),
    ];
    for (direction, expected) in cases {
        let mut point = Point::new(10, 10);
        point.move_in_direction(direction);
        assert_eq!(point, expected);
    }
}
