use snake_core::point::Point;
use snake_core::snake::Snake;

#[test]
fn test_get_head() {
    let snake = Snake::new();
    let head = snake.get_head();
    assert_eq!(head, Point::new(10, 10))
}

#[test]
fn test_add_head() {
    let mut snake = Snake::new();
    let head = Point::new(11, 10);
    snake.add_head(head);
    assert_eq!(snake.points.len(), 5);
    assert_eq!(snake.points[0], head);
    assert_eq!(snake.get_head(), head);
}

#[test]
fn remove_tail() {
    let mut snake = Snake::new();
    let tail = snake.remove_tail();
    assert_eq!(snake.points.len(), 3);
    assert_eq!(tail, Some(Point::new(7, 10)));
}

#[test]
fn test_iter() {
    let snake = Snake::new();
    let mut iter = snake.points.iter();
    assert_eq!(iter.next(), Some(&Point::new(10, 10)));
    assert_eq!(iter.next(), Some(&Point::new(9, 10)));
    assert_eq!(iter.next(), Some(&Point::new(8, 10)));
    assert_eq!(iter.next(), Some(&Point::new(7, 10)));
    assert_eq!(iter.next(), None);
}

#[test]
fn initial_body_scenario() {
    let mut snake = Snake::new();
    assert_eq!(
        snake.points,
        vec![Point::new(10, 10), Point::new(9, 10), Point::new(8, 10), Point::new(7, 10)]
    );
    assert_eq!(snake.get_head(), Point::new(10, 10));
    assert_eq!(snake.get_tail(), Point::new(7, 10));
    assert_eq!(snake.remove_tail(), Some(Point::new(7, 10)));
    assert_eq!(snake.points.len(), 3);
}

#[test]
fn remove_tail_on_empty_returns_none() {
    let mut snake = Snake::new();
    snake.points.clear();
    assert_eq!(snake.remove_tail(), None);
    assert_eq!(snake.points.len(), 0);
}

#[test]
fn remove_tail_keeps_a_one_cell_body() {
    let mut snake = Snake::new();
    snake.points = vec![Point::new(3, 3)];
    assert_eq!(snake.remove_tail(), None);
    assert_eq!(snake.points, vec![Point::new(3, 3)]);
}

#[test]
fn is_at_finds_every_cell() {
    let snake = Snake::new();
    assert!(snake.is_at(Point::new(10, 10)));
    assert!(snake.is_at(Point::new(8, 10)));
    assert!(snake.is_at(Point::new(7, 10)));
    assert!(!snake.is_at(Point::new(11, 10)));
    assert!(!snake.is_at(Point::new(10, 11)));
}
