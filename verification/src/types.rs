use vstd::prelude::*;

verus! {

/// Travel state of an elevator car: moving up, moving down, or idle.
#[derive(Clone, Copy, Debug, Eq, PartialEq, Structural)]
pub enum ElevatorDirection {
    Up,
    Down,
    Stopped,
}

/// A building level, identified by a signed number. Floors are totally
/// ordered by that number and carry no identity beyond it.
#[derive(Clone, Copy, Debug, Eq, Ord, PartialEq, Structural)]
pub struct Floor {
    pub num: i8,
}

impl Floor {
    pub fn new(num: i8) -> (f: Floor)
        ensures
            f.num == num,
    {
        Floor { num }
    }
}

impl PartialOrd for Floor {
    fn partial_cmp(&self, other: &Floor) -> (r: Option<core::cmp::Ordering>) {
        if self.num < other.num {
            Some(core::cmp::Ordering::Less)
        } else if self.num == other.num {
            Some(core::cmp::Ordering::Equal)
        } else {
            Some(core::cmp::Ordering::Greater)
        }
    }
}

impl vstd::std_specs::cmp::PartialOrdSpecImpl for Floor {
    open spec fn obeys_partial_cmp_spec() -> bool {
        true
    }

    open spec fn partial_cmp_spec(&self, other: &Floor) -> Option<core::cmp::Ordering> {
        if self.num < other.num {
            Some(core::cmp::Ordering::Less)
        } else if self.num == other.num {
            Some(core::cmp::Ordering::Equal)
        } else {
            Some(core::cmp::Ordering::Greater)
        }
    }
}

/// Relies on std::time::Instant: an opaque monotonic timestamp, carried on
/// each order but never read by any scheduling policy.
#[verifier::external_type_specification]
#[verifier::external_body]
pub struct ExInstant(std::time::Instant);

/// Relies on std::time::Instant::now: reads the monotonic clock; nothing is
/// assumed about the value it returns.
pub assume_specification[ std::time::Instant::now ]() -> std::time::Instant;

/// A request to stop at a floor, carrying a passenger count and the moment
/// the request was created. Immutable after creation.
#[derive(Clone, Copy, Debug)]
pub struct Order {
    pub floor: Floor,
    pub num_of_people: u8,
    pub instant: std::time::Instant,
}

impl Order {
    pub fn new(floor: Floor, num_of_people: u8) -> (o: Order)
        ensures
            o.floor == floor,
            o.num_of_people == num_of_people,
    {
        Order { floor, num_of_people, instant: std::time::Instant::now() }
    }
}

/// A message delivered to one car's worker: a new order to file, an
/// administrative override of direction or floor, or a shutdown request.
pub enum Message {
    NewOrder(Order),
    SetDirection(ElevatorDirection),
    GoToFloor(Floor),
    Terminate,
}

} // verus!
