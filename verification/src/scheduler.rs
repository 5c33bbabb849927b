use vstd::prelude::*;

use crate::queue::add_to_queue;
use crate::queue::add_to_queue_spec;
use crate::queue::contains_floor;
use crate::queue::count_floor;
use crate::queue::dir_le;
use crate::queue::lemma_add_contains;
use crate::queue::lemma_add_preserves_no_dup;
use crate::queue::lemma_contains_count;
use crate::queue::lemma_no_dup_count;
use crate::queue::no_dup_floors;
use crate::queue::sort_queue;
use crate::queue::sorted_by_dir;
use crate::types::ElevatorDirection;
use crate::types::Floor;
use crate::types::Message;
use crate::types::Order;

verus! {

/// One car's scheduling state: its identifier, the two directional queues,
/// the direction of travel, and the floor the car currently stands at.
pub struct Elevator {
    pub id: usize,
    pub cur_dir_queue: Vec<Order>,
    pub next_dir_queue: Vec<Order>,
    pub direction: ElevatorDirection,
    pub current_floor: Floor,
}

/// The direction an idle car adopts when an order for floor `dest` arrives
/// while it stands at floor `current`; a moving car keeps its direction.
pub open spec fn infer_direction(d: ElevatorDirection, current: i8, dest: i8) -> ElevatorDirection {
    if d == ElevatorDirection::Stopped {
        if dest < current {
            ElevatorDirection::Down
        } else if dest > current {
            ElevatorDirection::Up
        } else {
            ElevatorDirection::Stopped
        }
    } else {
        d
    }
}

/// An order for floor `dest` lies in the direction of travel `d` from floor
/// `current`, so it is served on the current sweep.
pub open spec fn goes_active(d: ElevatorDirection, current: i8, dest: i8) -> bool {
    (dest < current && d == ElevatorDirection::Down) || (dest > current && d
        == ElevatorDirection::Up)
}

/// An order for floor `dest` lies opposite to the direction of travel `d`
/// from floor `current`, so it is served on the return sweep.
pub open spec fn goes_return(d: ElevatorDirection, current: i8, dest: i8) -> bool {
    (dest < current && d == ElevatorDirection::Up) || (dest > current && d
        == ElevatorDirection::Down)
}

/// How one order submission transforms a car's state: the direction is
/// inferred first, then the order is filed into the active queue (which is
/// re-sorted), into the return queue (left unsorted), or — exactly when it is
/// for the car's own floor — into neither.
pub open spec fn queue_order_post(pre: Elevator, order: Order, post: Elevator) -> bool {
    let current = pre.current_floor.num;
    let dest = order.floor.num;
    let d1 = infer_direction(pre.direction, current, dest);
    &&& post.id == pre.id
    &&& post.current_floor == pre.current_floor
    &&& post.direction == d1
    &&& (goes_active(d1, current, dest) ==> {
        &&& post.next_dir_queue@ == pre.next_dir_queue@
        &&& post.cur_dir_queue@.to_multiset() == add_to_queue_spec(
            pre.cur_dir_queue@,
            order,
        ).to_multiset()
        &&& post.cur_dir_queue@.len() == add_to_queue_spec(pre.cur_dir_queue@, order).len()
        &&& sorted_by_dir(post.cur_dir_queue@, d1)
        &&& (forall|x: i8|
            contains_floor(post.cur_dir_queue@, x) == (contains_floor(pre.cur_dir_queue@, x) || x
                == dest))
        &&& (no_dup_floors(pre.cur_dir_queue@) ==> no_dup_floors(post.cur_dir_queue@))
    })
    &&& (goes_return(d1, current, dest) ==> {
        &&& post.cur_dir_queue@ == pre.cur_dir_queue@
        &&& post.next_dir_queue@ == add_to_queue_spec(pre.next_dir_queue@, order)
        &&& (no_dup_floors(pre.next_dir_queue@) ==> no_dup_floors(post.next_dir_queue@))
    })
    &&& (!goes_active(d1, current, dest) && !goes_return(d1, current, dest) ==> {
        &&& dest == current
        &&& post.cur_dir_queue@ == pre.cur_dir_queue@
        &&& post.next_dir_queue@ == pre.next_dir_queue@
    })
}

/// The direction resolved when the active queue runs empty and the queues are
/// swapped: a moving car reverses; an idle car looks at the first incoming
/// order, if any, and heads toward it.
pub open spec fn swap_direction(
    d: ElevatorDirection,
    current: i8,
    incoming: Seq<Order>,
) -> ElevatorDirection {
    match d {
        ElevatorDirection::Up => ElevatorDirection::Down,
        ElevatorDirection::Down => ElevatorDirection::Up,
        ElevatorDirection::Stopped => {
            if incoming.len() == 0 {
                ElevatorDirection::Stopped
            } else if incoming[0].floor.num > current {
                ElevatorDirection::Up
            } else if incoming[0].floor.num < current {
                ElevatorDirection::Down
            } else {
                ElevatorDirection::Stopped
            }
        },
    }
}

/// `s` is the incoming return queue arranged for travel in direction `nd`:
/// the same orders, sorted for that direction.
pub open spec fn arranged(s: Seq<Order>, incoming: Seq<Order>, nd: ElevatorDirection) -> bool {
    &&& s.to_multiset() == incoming.to_multiset()
    &&& s.len() == incoming.len()
    &&& sorted_by_dir(s, nd)
}

/// How one movement step transforms a car's state and what it yields.
/// With active work, the head of the active queue — the nearest queued floor
/// in the direction of travel — is served. With an empty active queue and
/// pending return work, the queues are swapped, the direction is resolved,
/// the new active queue is sorted for it, and its head is served. With no
/// work at all the car parks: it yields nothing, points nowhere, and stays
/// where it is.
pub open spec fn step_post(pre: Elevator, r: Option<Floor>, post: Elevator) -> bool {
    &&& post.id == pre.id
    &&& (pre.cur_dir_queue@.len() > 0 ==> {
        &&& r == Some(pre.cur_dir_queue@[0].floor)
        &&& post.current_floor == pre.cur_dir_queue@[0].floor
        &&& post.cur_dir_queue@ == pre.cur_dir_queue@.drop_first()
        &&& post.next_dir_queue@ == pre.next_dir_queue@
        &&& post.direction == pre.direction
    })
    &&& (pre.cur_dir_queue@.len() == 0 && pre.next_dir_queue@.len() == 0 ==> {
        &&& r is None
        &&& post.direction == ElevatorDirection::Stopped
        &&& post.cur_dir_queue@.len() == 0
        &&& post.next_dir_queue@.len() == 0
        &&& post.current_floor == pre.current_floor
    })
    &&& (pre.cur_dir_queue@.len() == 0 && pre.next_dir_queue@.len() > 0 ==> {
        let nd = swap_direction(pre.direction, pre.current_floor.num, pre.next_dir_queue@);
        &&& post.direction == nd
        &&& post.next_dir_queue@.len() == 0
        &&& (exists|s: Seq<Order>|
            {
                &&& #[trigger] arranged(s, pre.next_dir_queue@, nd)
                &&& r == Some(s[0].floor)
                &&& post.current_floor == s[0].floor
                &&& post.cur_dir_queue@ == s.drop_first()
            })
    })
    &&& (no_dup_floors(pre.cur_dir_queue@) && no_dup_floors(pre.next_dir_queue@)
        ==> no_dup_floors(post.cur_dir_queue@) && no_dup_floors(post.next_dir_queue@))
    &&& (sorted_by_dir(pre.cur_dir_queue@, pre.direction) ==> sorted_by_dir(
        post.cur_dir_queue@,
        post.direction,
    ))
}

impl Elevator {
    /// A fresh car: idle at `current_floor` with both queues empty. The floor
    /// catalog only sizes the queues' initial capacity; the scheduler imposes
    /// no range check on floor values.
    pub fn new(id: usize, current_floor: Floor, floors: &Vec<Floor>) -> (e: Elevator)
        ensures
            e.id == id,
            e.current_floor == current_floor,
            e.direction == ElevatorDirection::Stopped,
            e.cur_dir_queue@.len() == 0,
            e.next_dir_queue@.len() == 0,
    {
        Elevator {
            id,
            cur_dir_queue: Vec::with_capacity(floors.len()),
            next_dir_queue: Vec::with_capacity(floors.len()),
            direction: ElevatorDirection::Stopped,
            current_floor,
        }
    }

    /// Administrative relocation: the car's floor is overwritten directly;
    /// queues and direction are untouched.
    pub fn go_to_floor(&mut self, floor: Floor)
        ensures
            final(self).current_floor == floor,
            final(self).id == old(self).id,
            final(self).direction == old(self).direction,
            final(self).cur_dir_queue@ == old(self).cur_dir_queue@,
            final(self).next_dir_queue@ == old(self).next_dir_queue@,
    {
        self.current_floor = floor;
    }

    /// Administrative direction override; queues and floor are untouched.
    pub fn set_direction(&mut self, direction: ElevatorDirection)
        ensures
            final(self).direction == direction,
            final(self).id == old(self).id,
            final(self).current_floor == old(self).current_floor,
            final(self).cur_dir_queue@ == old(self).cur_dir_queue@,
            final(self).next_dir_queue@ == old(self).next_dir_queue@,
    {
        self.direction = direction;
    }

    /// Files one submitted order: infers a direction if the car was idle,
    /// then classifies the order into the active queue (kept sorted), the
    /// return queue, or neither when it is for the car's own floor.
    pub fn queue_order(&mut self, order: Order)
        ensures
            queue_order_post(*old(self), order, *final(self)),
    {
        let floor = order.floor;

        if self.direction == ElevatorDirection::Stopped {
            if floor.num < self.current_floor.num {
                self.set_direction(ElevatorDirection::Down)
            } else if floor.num > self.current_floor.num {
                self.set_direction(ElevatorDirection::Up)
            }
        }

        if (floor.num < self.current_floor.num && self.direction == ElevatorDirection::Down) || (
        floor.num > self.current_floor.num && self.direction == ElevatorDirection::Up) {
            add_to_queue(&mut self.cur_dir_queue, order);
            sort_queue(&mut self.cur_dir_queue, self.direction);
            proof {
                lemma_add_contains(old(self).cur_dir_queue@, order);
                if no_dup_floors(old(self).cur_dir_queue@) {
                    lemma_add_preserves_no_dup(old(self).cur_dir_queue@, order);
                }
            }
        } else if (floor.num < self.current_floor.num && self.direction == ElevatorDirection::Up)
            || (floor.num > self.current_floor.num && self.direction == ElevatorDirection::Down) {
            add_to_queue(&mut self.next_dir_queue, order);
            proof {
                if no_dup_floors(old(self).next_dir_queue@) {
                    lemma_add_preserves_no_dup(old(self).next_dir_queue@, order);
                }
            }
        }
    }

    /// Both queues are empty: the car has no work at all.
    pub fn all_queues_emptied(&self) -> (r: bool)
        ensures
            r == (self.cur_dir_queue@.len() == 0 && self.next_dir_queue@.len() == 0),
    {
        self.cur_dir_queue.is_empty() && self.next_dir_queue.is_empty()
    }

    /// One movement step. If the active queue has work, the nearest queued
    /// floor in the direction of travel is served: it is removed, the car
    /// moves there, and it is returned. If the active queue is empty, the
    /// queues are swapped first, the direction is resolved (a moving car
    /// reverses; an idle car heads toward the first incoming order) and the
    /// new active queue is sorted for it. With no work at all the car parks:
    /// direction becomes Stopped, the floor stays, and no floor is returned.
    pub fn next(&mut self) -> (r: Option<Floor>)
        ensures
            step_post(*old(self), r, *final(self)),
    {
        if self.cur_dir_queue.len() == 0 {
            self.cur_dir_queue.append(&mut self.next_dir_queue);
            proof {
                assert(self.cur_dir_queue@ =~= old(self).next_dir_queue@);
            }

            let next_direction = match self.direction {
                ElevatorDirection::Up => ElevatorDirection::Down,
                ElevatorDirection::Down => ElevatorDirection::Up,
                ElevatorDirection::Stopped => {
                    if self.cur_dir_queue.len() == 0 {
                        ElevatorDirection::Stopped
                    } else if self.cur_dir_queue[0].floor.num > self.current_floor.num {
                        ElevatorDirection::Up
                    } else if self.cur_dir_queue[0].floor.num < self.current_floor.num {
                        ElevatorDirection::Down
                    } else {
                        ElevatorDirection::Stopped
                    }
                },
            };

            self.set_direction(next_direction);
            sort_queue(&mut self.cur_dir_queue, self.direction);
        }

        if self.cur_dir_queue.len() > 0 {
            let ghost sorted_seq = self.cur_dir_queue@;
            let order = self.cur_dir_queue.remove(0);
            let next_floor = order.floor;
            self.go_to_floor(next_floor);
            proof {
                assert(self.cur_dir_queue@ =~= sorted_seq.drop_first());
                if old(self).cur_dir_queue@.len() == 0 {
                    assert(arranged(
                        sorted_seq,
                        old(self).next_dir_queue@,
                        swap_direction(
                            old(self).direction,
                            old(self).current_floor.num,
                            old(self).next_dir_queue@,
                        ),
                    ));
                }
                assert forall|i: int, j: int| 0 <= i < j < self.cur_dir_queue@.len() implies (
                dir_le(
                    self.direction,
                    self.cur_dir_queue@[i].floor.num,
                    self.cur_dir_queue@[j].floor.num,
                ) || !sorted_by_dir(sorted_seq, self.direction)) by {
                    assert(self.cur_dir_queue@[i] == sorted_seq[i + 1]);
                    assert(self.cur_dir_queue@[j] == sorted_seq[j + 1]);
                };
                assert forall|i: int, j: int| 0 <= i < j < self.cur_dir_queue@.len() implies (
                self.cur_dir_queue@[i].floor.num != self.cur_dir_queue@[j].floor.num
                    || !no_dup_floors(sorted_seq)) by {
                    assert(self.cur_dir_queue@[i] == sorted_seq[i + 1]);
                    assert(self.cur_dir_queue@[j] == sorted_seq[j + 1]);
                };
            }
            Some(next_floor)
        } else if self.all_queues_emptied() {
            self.set_direction(ElevatorDirection::Stopped);
            None
        } else {
            // A swap leaves the return queue empty, so an empty active queue
            // here means both queues are empty.
            unreached()
        }
    }

    /// Applies one inbox message to the car and says whether its worker
    /// should keep running: an order is filed, an override is applied
    /// directly, and a terminate request stops the worker without touching
    /// the car's state.
    pub fn handle_message(&mut self, message: Message) -> (keep_running: bool)
        ensures
            match message {
                Message::NewOrder(order) => keep_running && queue_order_post(
                    *old(self),
                    order,
                    *final(self),
                ),
                Message::GoToFloor(floor) => {
                    &&& keep_running
                    &&& final(self).current_floor == floor
                    &&& final(self).id == old(self).id
                    &&& final(self).direction == old(self).direction
                    &&& final(self).cur_dir_queue@ == old(self).cur_dir_queue@
                    &&& final(self).next_dir_queue@ == old(self).next_dir_queue@
                },
                Message::SetDirection(direction) => {
                    &&& keep_running
                    &&& final(self).direction == direction
                    &&& final(self).id == old(self).id
                    &&& final(self).current_floor == old(self).current_floor
                    &&& final(self).cur_dir_queue@ == old(self).cur_dir_queue@
                    &&& final(self).next_dir_queue@ == old(self).next_dir_queue@
                },
                Message::Terminate => !keep_running && *final(self) == *old(self),
            },
    {
        match message {
            Message::GoToFloor(floor) => {
                self.go_to_floor(floor);
                true
            },
            Message::NewOrder(order) => {
                self.queue_order(order);
                true
            },
            Message::SetDirection(direction) => {
                self.set_direction(direction);
                true
            },
            Message::Terminate => false,
        }
    }
}

/// After a submission that entered the active queue of a car whose active
/// queue had no duplicate destinations, the active queue's floors are in
/// strictly direction-consistent order — strictly ascending when heading Up,
/// strictly descending when heading Down.
pub proof fn lemma_active_queue_strictly_sorted(pre: Elevator, order: Order, post: Elevator)
    requires
        queue_order_post(pre, order, post),
        no_dup_floors(pre.cur_dir_queue@),
        goes_active(
            infer_direction(pre.direction, pre.current_floor.num, order.floor.num),
            pre.current_floor.num,
            order.floor.num,
        ),
    ensures
        forall|i: int, j: int|
            0 <= i < j < post.cur_dir_queue@.len() ==> (if post.direction
                == ElevatorDirection::Down {
                post.cur_dir_queue@[i].floor.num > post.cur_dir_queue@[j].floor.num
            } else {
                post.cur_dir_queue@[i].floor.num < post.cur_dir_queue@[j].floor.num
            }),
{
    let q = post.cur_dir_queue@;
    assert forall|i: int, j: int| 0 <= i < j < q.len() implies (if post.direction
        == ElevatorDirection::Down {
        q[i].floor.num > q[j].floor.num
    } else {
        q[i].floor.num < q[j].floor.num
    }) by {
        assert(dir_le(post.direction, q[i].floor.num, q[j].floor.num));
        assert(q[i].floor.num != q[j].floor.num);
    };
}

/// A duplicate-free return queue has exactly one arrangement for the
/// resolved direction, so the order in which a sweep serves the incoming
/// floors after a queue swap is fully determined.
pub proof fn lemma_arranged_unique(
    s1: Seq<Order>,
    s2: Seq<Order>,
    incoming: Seq<Order>,
    nd: ElevatorDirection,
)
    requires
        arranged(s1, incoming, nd),
        arranged(s2, incoming, nd),
        no_dup_floors(incoming),
    ensures
        s1 == s2,
{
    crate::queue::lemma_same_contents_no_dup(incoming, s1);
    crate::queue::lemma_sorted_unique(s1, s2, nd);
}

/// A movement step taken by an idle car with no queued work yields no floor
/// and leaves the car exactly as it was, so repeated stepping never changes
/// the direction or the position.
pub proof fn lemma_idle_convergence(pre: Elevator, r: Option<Floor>, post: Elevator)
    requires
        step_post(pre, r, post),
        pre.direction == ElevatorDirection::Stopped,
        pre.cur_dir_queue@.len() == 0,
        pre.next_dir_queue@.len() == 0,
    ensures
        r is None,
        post.id == pre.id,
        post.direction == pre.direction,
        post.current_floor == pre.current_floor,
        post.cur_dir_queue@ == pre.cur_dir_queue@,
        post.next_dir_queue@ == pre.next_dir_queue@,
{
    assert(post.cur_dir_queue@ =~= pre.cur_dir_queue@);
    assert(post.next_dir_queue@ =~= pre.next_dir_queue@);
}

/// Submitting duplicates is idempotent: two orders for the same destination
/// floor, submitted one after the other, leave exactly one entry for that
/// floor in the queue that accepted them.
pub proof fn lemma_duplicate_submission(
    pre: Elevator,
    o1: Order,
    o2: Order,
    mid: Elevator,
    post: Elevator,
)
    requires
        o1.floor.num == o2.floor.num,
        no_dup_floors(pre.cur_dir_queue@),
        no_dup_floors(pre.next_dir_queue@),
        queue_order_post(pre, o1, mid),
        queue_order_post(mid, o2, post),
    ensures
        goes_active(
            infer_direction(pre.direction, pre.current_floor.num, o1.floor.num),
            pre.current_floor.num,
            o1.floor.num,
        ) ==> count_floor(post.cur_dir_queue@, o1.floor.num) == 1,
        goes_return(
            infer_direction(pre.direction, pre.current_floor.num, o1.floor.num),
            pre.current_floor.num,
            o1.floor.num,
        ) ==> count_floor(post.next_dir_queue@, o1.floor.num) == 1,
{
    let f = o1.floor.num;
    let current = pre.current_floor.num;
    let d1 = infer_direction(pre.direction, current, f);
    if goes_active(d1, current, f) {
        assert(contains_floor(mid.cur_dir_queue@, f));
        assert(no_dup_floors(mid.cur_dir_queue@));
        assert(infer_direction(mid.direction, mid.current_floor.num, f) == d1);
        assert(contains_floor(post.cur_dir_queue@, f));
        assert(no_dup_floors(post.cur_dir_queue@));
        lemma_contains_count(post.cur_dir_queue@, f);
        lemma_no_dup_count(post.cur_dir_queue@, f);
    }
    if goes_return(d1, current, f) {
        lemma_add_contains(pre.next_dir_queue@, o1);
        assert(contains_floor(mid.next_dir_queue@, f));
        assert(no_dup_floors(mid.next_dir_queue@));
        assert(infer_direction(mid.direction, mid.current_floor.num, f) == d1);
        lemma_add_contains(mid.next_dir_queue@, o2);
        assert(contains_floor(post.next_dir_queue@, f));
        assert(no_dup_floors(post.next_dir_queue@));
        lemma_contains_count(post.next_dir_queue@, f);
        lemma_no_dup_count(post.next_dir_queue@, f);
    }
}

} // verus!
