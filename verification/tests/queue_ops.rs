use elevator::add_to_queue;
use elevator::sort_queue;
use elevator::ElevatorDirection;
use elevator::Floor;
use elevator::Order;

fn floors_of(queue: &Vec<Order>) -> Vec<i8> {
    queue.iter().map(|o| o.floor.num).collect()
}

#[test]
fn add_appends_new_destination() {
    let mut q = Vec::new();
    add_to_queue(&mut q, Order::new(Floor::new(4), 1));
    add_to_queue(&mut q, Order::new(Floor::new(-2), 1));
    assert_eq!(floors_of(&q), vec![4, -2]);
}

#[test]
fn add_drops_duplicate_destination() {
    let mut q = Vec::new();
    add_to_queue(&mut q, Order::new(Floor::new(4), 1));
    add_to_queue(&mut q, Order::new(Floor::new(4), 7));
    add_to_queue(&mut q, Order::new(Floor::new(4), 2));
    assert_eq!(floors_of(&q), vec![4]);
    assert_eq!(q[0].num_of_people, 1);
}

#[test]
fn sort_ascending_for_up() {
    let mut q = vec![
        Order::new(Floor::new(5), 1),
        Order::new(Floor::new(-3), 1),
        Order::new(Floor::new(9), 1),
        Order::new(Floor::new(0), 1),
    ];
    sort_queue(&mut q, ElevatorDirection::Up);
    assert_eq!(floors_of(&q), vec![-3, 0, 5, 9]);
}

#[test]
fn sort_descending_for_down() {
    let mut q = vec![
        Order::new(Floor::new(5), 1),
        Order::new(Floor::new(-3), 1),
        Order::new(Floor::new(9), 1),
        Order::new(Floor::new(0), 1),
    ];
    sort_queue(&mut q, ElevatorDirection::Down);
    assert_eq!(floors_of(&q), vec![9, 5, 0, -3]);
}

#[test]
fn sort_ascending_when_stopped() {
    let mut q = vec![Order::new(Floor::new(2), 1), Order::new(Floor::new(1), 1)];
    sort_queue(&mut q, ElevatorDirection::Stopped);
    assert_eq!(floors_of(&q), vec![1, 2]);
}

#[test]
fn sort_of_empty_queue_is_empty() {
    let mut q: Vec<Order> = Vec::new();
    sort_queue(&mut q, ElevatorDirection::Up);
    assert!(q.is_empty());
}
