use elevator::Elevator;
use elevator::ElevatorDirection;
use elevator::Floor;
use elevator::Message;
use elevator::Order;

fn floors_catalog() -> Vec<Floor> {
    let mut floors = Vec::new();
    let mut n: i8 = -5;
    while n <= 12 {
        floors.push(Floor::new(n));
        n += 1;
    }
    floors
}

fn queue_floors(queue: &Vec<Order>) -> Vec<i8> {
    queue.iter().map(|o| o.floor.num).collect()
}

#[test]
fn floor_carries_its_number() {
    let f = Floor::new(-3);
    assert_eq!(f.num, -3);
    assert_eq!(Floor::new(-3), f);
    assert_ne!(Floor::new(2), f);
}

#[test]
fn floors_are_ordered_by_number() {
    assert!(Floor::new(-5) < Floor::new(0));
    assert!(Floor::new(3) > Floor::new(2));
    assert!(Floor::new(4) <= Floor::new(4));
    assert_eq!(Floor::new(1).cmp(&Floor::new(2)), std::cmp::Ordering::Less);
}

#[test]
fn order_carries_floor_and_passengers() {
    let o = Order::new(Floor::new(7), 4);
    assert_eq!(o.floor.num, 7);
    assert_eq!(o.num_of_people, 4);
}

#[test]
fn new_elevator_is_idle_and_empty() {
    let floors = floors_catalog();
    let e = Elevator::new(3, Floor::new(1), &floors);
    assert_eq!(e.id, 3);
    assert_eq!(e.current_floor, Floor::new(1));
    assert_eq!(e.direction, ElevatorDirection::Stopped);
    assert!(e.cur_dir_queue.is_empty());
    assert!(e.next_dir_queue.is_empty());
}

#[test]
fn duplicate_destination_is_dropped_in_active_queue() {
    let floors = floors_catalog();
    let mut e = Elevator::new(0, Floor::new(5), &floors);
    e.queue_order(Order::new(Floor::new(2), 1));
    e.queue_order(Order::new(Floor::new(2), 6));
    assert_eq!(queue_floors(&e.cur_dir_queue), vec![2]);
    // The first order for the floor is the one that stays.
    assert_eq!(e.cur_dir_queue[0].num_of_people, 1);
}

#[test]
fn duplicate_destination_is_dropped_in_return_queue() {
    let floors = floors_catalog();
    let mut e = Elevator::new(0, Floor::new(5), &floors);
    e.queue_order(Order::new(Floor::new(2), 1));
    e.queue_order(Order::new(Floor::new(8), 2));
    e.queue_order(Order::new(Floor::new(8), 3));
    assert_eq!(queue_floors(&e.next_dir_queue), vec![8]);
    assert_eq!(e.next_dir_queue[0].num_of_people, 2);
}

#[test]
fn active_queue_is_sorted_ascending_when_up() {
    let floors = floors_catalog();
    let mut e = Elevator::new(0, Floor::new(0), &floors);
    e.queue_order(Order::new(Floor::new(7), 1));
    e.queue_order(Order::new(Floor::new(3), 1));
    e.queue_order(Order::new(Floor::new(5), 1));
    assert_eq!(e.direction, ElevatorDirection::Up);
    assert_eq!(queue_floors(&e.cur_dir_queue), vec![3, 5, 7]);
}

#[test]
fn active_queue_is_sorted_descending_when_down() {
    let floors = floors_catalog();
    let mut e = Elevator::new(0, Floor::new(10), &floors);
    e.queue_order(Order::new(Floor::new(2), 1));
    e.queue_order(Order::new(Floor::new(8), 1));
    e.queue_order(Order::new(Floor::new(-4), 1));
    assert_eq!(e.direction, ElevatorDirection::Down);
    assert_eq!(queue_floors(&e.cur_dir_queue), vec![8, 2, -4]);
}

#[test]
fn return_queue_is_left_unsorted_on_insert() {
    let floors = floors_catalog();
    let mut e = Elevator::new(0, Floor::new(5), &floors);
    e.queue_order(Order::new(Floor::new(2), 1));
    assert_eq!(e.direction, ElevatorDirection::Down);
    e.queue_order(Order::new(Floor::new(9), 1));
    e.queue_order(Order::new(Floor::new(7), 1));
    assert_eq!(queue_floors(&e.next_dir_queue), vec![9, 7]);
}

#[test]
fn sweep_completeness() {
    // Current floor F0, direction Up, active queue [3, 5, 7] above the car
    // and return queue [1, 2] below it.
    let mut e = Elevator {
        id: 0,
        cur_dir_queue: vec![
            Order::new(Floor::new(3), 1),
            Order::new(Floor::new(5), 1),
            Order::new(Floor::new(7), 1),
        ],
        next_dir_queue: vec![Order::new(Floor::new(1), 1), Order::new(Floor::new(2), 1)],
        direction: ElevatorDirection::Up,
        current_floor: Floor::new(2),
    };

    assert_eq!(e.next(), Some(Floor::new(3)));
    assert_eq!(e.next(), Some(Floor::new(5)));
    assert_eq!(e.next(), Some(Floor::new(7)));
    assert_eq!(e.direction, ElevatorDirection::Up);

    // The next pull swaps the queues and flips the direction to Down.
    assert_eq!(e.next(), Some(Floor::new(2)));
    assert_eq!(e.direction, ElevatorDirection::Down);
    assert_eq!(e.next(), Some(Floor::new(1)));

    assert_eq!(e.next(), None);
    assert_eq!(e.direction, ElevatorDirection::Stopped);
}

#[test]
fn idle_convergence() {
    let floors = floors_catalog();
    let mut e = Elevator::new(0, Floor::new(4), &floors);
    for _ in 0..5 {
        assert_eq!(e.next(), None);
        assert_eq!(e.direction, ElevatorDirection::Stopped);
        assert_eq!(e.current_floor, Floor::new(4));
        assert!(e.cur_dir_queue.is_empty());
        assert!(e.next_dir_queue.is_empty());
    }
}

#[test]
fn direction_inference_down() {
    let floors = floors_catalog();
    let mut e = Elevator::new(0, Floor::new(5), &floors);
    e.queue_order(Order::new(Floor::new(2), 1));
    assert_eq!(e.direction, ElevatorDirection::Down);
    assert_eq!(queue_floors(&e.cur_dir_queue), vec![2]);
    assert!(e.next_dir_queue.is_empty());
}

#[test]
fn direction_inference_up() {
    let floors = floors_catalog();
    let mut e = Elevator::new(0, Floor::new(5), &floors);
    e.queue_order(Order::new(Floor::new(8), 1));
    assert_eq!(e.direction, ElevatorDirection::Up);
    assert_eq!(queue_floors(&e.cur_dir_queue), vec![8]);
    assert!(e.next_dir_queue.is_empty());
}

#[test]
fn order_for_own_floor_while_idle_is_filed_nowhere() {
    let floors = floors_catalog();
    let mut e = Elevator::new(0, Floor::new(5), &floors);
    e.queue_order(Order::new(Floor::new(5), 1));
    assert_eq!(e.direction, ElevatorDirection::Stopped);
    assert!(e.cur_dir_queue.is_empty());
    assert!(e.next_dir_queue.is_empty());
}

#[test]
fn order_for_own_floor_while_moving_is_filed_nowhere() {
    let floors = floors_catalog();
    let mut e = Elevator::new(0, Floor::new(5), &floors);
    e.queue_order(Order::new(Floor::new(2), 1));
    assert_eq!(e.direction, ElevatorDirection::Down);
    e.queue_order(Order::new(Floor::new(5), 1));
    assert_eq!(queue_floors(&e.cur_dir_queue), vec![2]);
    assert!(e.next_dir_queue.is_empty());
}

#[test]
fn go_to_floor_overrides_position_only() {
    let floors = floors_catalog();
    let mut e = Elevator::new(0, Floor::new(5), &floors);
    e.queue_order(Order::new(Floor::new(2), 1));
    e.go_to_floor(Floor::new(-1));
    assert_eq!(e.current_floor, Floor::new(-1));
    assert_eq!(e.direction, ElevatorDirection::Down);
    assert_eq!(queue_floors(&e.cur_dir_queue), vec![2]);
}

#[test]
fn set_direction_overrides_direction_only() {
    let floors = floors_catalog();
    let mut e = Elevator::new(0, Floor::new(5), &floors);
    e.set_direction(ElevatorDirection::Up);
    assert_eq!(e.direction, ElevatorDirection::Up);
    assert_eq!(e.current_floor, Floor::new(5));
}

#[test]
fn terminate_stops_the_worker_without_touching_state() {
    let floors = floors_catalog();
    let mut e = Elevator::new(0, Floor::new(5), &floors);
    e.queue_order(Order::new(Floor::new(2), 1));
    let keep_running = e.handle_message(Message::Terminate);
    assert!(!keep_running);
    assert_eq!(e.direction, ElevatorDirection::Down);
    assert_eq!(e.current_floor, Floor::new(5));
    assert_eq!(queue_floors(&e.cur_dir_queue), vec![2]);
    assert!(e.next_dir_queue.is_empty());
}

#[test]
fn messages_dispatch_to_the_matching_operation() {
    let floors = floors_catalog();
    let mut e = Elevator::new(0, Floor::new(5), &floors);
    assert!(e.handle_message(Message::NewOrder(Order::new(Floor::new(9), 1))));
    assert_eq!(queue_floors(&e.cur_dir_queue), vec![9]);
    assert!(e.handle_message(Message::SetDirection(ElevatorDirection::Down)));
    assert_eq!(e.direction, ElevatorDirection::Down);
    assert!(e.handle_message(Message::GoToFloor(Floor::new(0))));
    assert_eq!(e.current_floor, Floor::new(0));
}

#[test]
fn end_to_end_scenario() {
    // One car in a building with floors -5..=12, starting idle at floor 1.
    let floors = floors_catalog();
    let mut e = Elevator::new(0, Floor::new(1), &floors);
    e.queue_order(Order::new(Floor::new(12), 2));
    e.queue_order(Order::new(Floor::new(-3), 1));
    e.queue_order(Order::new(Floor::new(0), 1));

    assert_eq!(e.direction, ElevatorDirection::Up);
    assert_eq!(queue_floors(&e.cur_dir_queue), vec![12]);
    assert_eq!(queue_floors(&e.next_dir_queue), vec![-3, 0]);

    assert_eq!(e.next(), Some(Floor::new(12)));
    assert_eq!(e.current_floor, Floor::new(12));

    assert_eq!(e.next(), Some(Floor::new(0)));
    assert_eq!(e.direction, ElevatorDirection::Down);
    assert_eq!(e.next(), Some(Floor::new(-3)));

    assert_eq!(e.next(), None);
    assert_eq!(e.direction, ElevatorDirection::Stopped);
    assert!(e.all_queues_emptied());
}

#[test]
fn restarts_after_idle_when_new_work_arrives() {
    let floors = floors_catalog();
    let mut e = Elevator::new(0, Floor::new(0), &floors);
    assert_eq!(e.next(), None);
    e.queue_order(Order::new(Floor::new(6), 1));
    assert_eq!(e.next(), Some(Floor::new(6)));
    assert_eq!(e.next(), None);
    assert_eq!(e.direction, ElevatorDirection::Stopped);
}
