use snake_core::food::Food;
use snake_core::point::Point;

#[test]
fn is_at() {
    let point1 = Point::new(5, 5);
    let point2 = Point::new(6, 6);

    let mut food = Food::new();
    food.add(point1);

    assert!(!food.is_at(point2));
    assert!(food.is_at(point1));
}

#[test]
fn eat() {
    let point1 = Point::new(5, 5);
    let point2 = Point::new(6, 6);

    let mut food = Food::new();
    food.add(point1);

    food.eat(point2);
    assert_eq!(food.food.len(), 1);

    food.eat(point1);
    assert_eq!(food.food.len(), 0);
}

#[test]
fn eat_removes_only_first_match() {
    let mut food = Food::new();
    food.add(Point::new(1, 1));
    food.add(Point::new(2, 2));
    food.add(Point::new(3, 3));

    food.eat(Point::new(2, 2));
    assert_eq!(food.food.len(), 2);
    assert!(food.is_at(Point::new(1, 1)));
    assert!(!food.is_at(Point::new(2, 2)));
    assert!(food.is_at(Point::new(3, 3)));
}

#[test]
fn eat_on_empty_is_noop() {
    let mut food = Food::new();
    food.eat(Point::new(0, 0));
    assert_eq!(food.food.len(), 0);
}
