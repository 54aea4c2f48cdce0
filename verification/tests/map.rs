use snake_core::draw::Line;
use snake_core::draw::Rectangle;
use snake_core::map::GameMap;
use snake_core::point::Point;

#[test]
fn line_walks_a_horizontal_segment() {
    let mut line = Line::new(Point::new(0, 0), Point::new(5, 0));
    for x in 0..=5 {
        assert_eq!(line.next(), Some(Point::new(x, 0)));
    }
    assert_eq!(line.next(), None);
}

#[test]
fn line_walks_a_vertical_segment() {
    let mut line = Line::new(Point::new(3, 7), Point::new(3, 4));
    for y in [7, 6, 5, 4] {
        assert_eq!(line.next(), Some(Point::new(3, y)));
    }
    assert_eq!(line.next(), None);
}

#[test]
fn line_walks_a_diagonal_segment() {
    let mut line = Line::new(Point::new(0, 0), Point::new(3, 3));
    for d in 0..=3 {
        assert_eq!(line.next(), Some(Point::new(d, d)));
    }
    assert_eq!(line.next(), None);
}

#[test]
fn rectangle_covers_the_outline() {
    let mut rectangle = Rectangle::new(Point::new(0, 0), Point::new(2, 2));
    let mut cells = Vec::new();
    while let Some(point) = rectangle.next() {
        cells.push(point);
    }
    // Four segments of three cells each; shared corners appear in two
    // segments.
    assert_eq!(cells.len(), 12);
    for x in 0..=2 {
        assert!(cells.contains(&Point::new(x, 0)));
        assert!(cells.contains(&Point::new(x, 2)));
    }
    for y in 0..=2 {
        assert!(cells.contains(&Point::new(0, y)));
        assert!(cells.contains(&Point::new(2, y)));
    }
    assert!(!cells.contains(&Point::new(1, 1)));
}

#[test]
fn map_has_border_walls() {
    let map = GameMap::new(32, 24);
    assert!(map.wall_is_at(Point::new(0, 0)));
    assert!(map.wall_is_at(Point::new(31, 0)));
    assert!(map.wall_is_at(Point::new(31, 23)));
    assert!(map.wall_is_at(Point::new(0, 23)));
    assert!(map.wall_is_at(Point::new(15, 0)));
    assert!(map.wall_is_at(Point::new(0, 12)));
}

#[test]
fn map_has_maze_segments() {
    let map = GameMap::new(32, 24);
    // The four fixed interior segments.
    assert!(map.wall_is_at(Point::new(5, 5)));
    assert!(map.wall_is_at(Point::new(10, 5)));
    assert!(map.wall_is_at(Point::new(27, 5)));
    assert!(map.wall_is_at(Point::new(27, 10)));
    assert!(map.wall_is_at(Point::new(27, 19)));
    assert!(map.wall_is_at(Point::new(22, 19)));
    assert!(map.wall_is_at(Point::new(5, 19)));
    assert!(map.wall_is_at(Point::new(5, 14)));
}

#[test]
fn map_open_cells_are_not_walls() {
    let map = GameMap::new(32, 24);
    assert!(!map.wall_is_at(Point::new(1, 1)));
    assert!(!map.wall_is_at(Point::new(15, 12)));
    assert!(!map.wall_is_at(Point::new(30, 22)));
    assert!(!map.wall_is_at(Point::new(11, 10)));
}

#[test]
fn repeated_queries_agree() {
    let map = GameMap::new(32, 24);
    let probe = Point::new(5, 5);
    assert_eq!(map.wall_is_at(probe), map.wall_is_at(probe));
    let probe2 = Point::new(15, 12);
    assert_eq!(map.wall_is_at(probe2), map.wall_is_at(probe2));

    let snake = snake_core::snake::Snake::new();
    assert_eq!(snake.is_at(Point::new(10, 10)), snake.is_at(Point::new(10, 10)));

    let mut food = snake_core::food::Food::new();
    food.add(Point::new(4, 4));
    assert_eq!(food.is_at(Point::new(4, 4)), food.is_at(Point::new(4, 4)));
    assert_eq!(food.is_at(Point::new(9, 9)), food.is_at(Point::new(9, 9)));
}
