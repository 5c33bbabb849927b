use vstd::prelude::*;

use crate::types::ElevatorDirection;
use crate::types::Order;

verus! {

/// The ordering a queue is kept in when it is drained while travelling in
/// direction `d`: descending floor numbers when moving Down, ascending
/// otherwise.
pub open spec fn dir_le(d: ElevatorDirection, a: i8, b: i8) -> bool {
    if d == ElevatorDirection::Down {
        a >= b
    } else {
        a <= b
    }
}

/// The queue's destination floors are ordered consistently with direction `d`.
pub open spec fn sorted_by_dir(q: Seq<Order>, d: ElevatorDirection) -> bool {
    forall|i: int, j: int| 0 <= i < j < q.len() ==> dir_le(d, q[i].floor.num, q[j].floor.num)
}

/// Some order in the queue is destined for floor number `f`.
pub open spec fn contains_floor(q: Seq<Order>, f: i8) -> bool {
    exists|i: int| 0 <= i < q.len() && q[i].floor.num == f
}

/// How many orders in the queue are destined for floor number `f`.
pub open spec fn count_floor(q: Seq<Order>, f: i8) -> nat
    decreases q.len(),
{
    if q.len() == 0 {
        0
    } else {
        count_floor(q.drop_last(), f) + (if q.last().floor.num == f {
            1nat
        } else {
            0nat
        })
    }
}

/// No two orders in the queue share a destination floor.
pub open spec fn no_dup_floors(q: Seq<Order>) -> bool {
    forall|i: int, j: int| 0 <= i < j < q.len() ==> q[i].floor.num != q[j].floor.num
}

/// What filing an order leaves in a queue: the order is appended, unless an
/// order for the same floor is already queued, in which case the queue is
/// unchanged.
pub open spec fn add_to_queue_spec(q: Seq<Order>, order: Order) -> Seq<Order> {
    if contains_floor(q, order.floor.num) {
        q
    } else {
        q.push(order)
    }
}

/// Whether an order for floor number `f` is already queued.
fn floor_queued(queue: &Vec<Order>, f: i8) -> (r: bool)
    ensures
        r == contains_floor(queue@, f),
{
    let mut i: usize = 0;
    while i < queue.len()
        invariant
            0 <= i <= queue@.len(),
            forall|k: int| 0 <= k < i ==> queue@[k].floor.num != f,
        decreases queue@.len() - i,
    {
        if queue[i].floor.num == f {
            assert(queue@[i as int].floor.num == f);
            return true;
        }
        i = i + 1;
    }
    false
}

/// Files `order` into `queue`; an order for a floor that is already queued is
/// silently dropped, so each queue holds at most one order per floor.
pub fn add_to_queue(queue: &mut Vec<Order>, order: Order)
    ensures
        final(queue)@ == add_to_queue_spec(old(queue)@, order),
{
    if floor_queued(queue, order.floor.num) {
        return;
    }

    queue.push(order);
}

/// Whether `a` is served no later than `b` when travelling in direction `d`.
fn precedes(a: Order, b: Order, d: ElevatorDirection) -> (r: bool)
    ensures
        r == dir_le(d, a.floor.num, b.floor.num),
{
    match d {
        ElevatorDirection::Down => a.floor.num >= b.floor.num,
        _ => a.floor.num <= b.floor.num,
    }
}

/// Moving the order at index `m` from the pending part to the sorted output
/// leaves the combined contents unchanged.
proof fn lemma_move_keeps_contents(out0: Seq<Order>, q0: Seq<Order>, m: int, orig: Seq<Order>)
    requires
        0 <= m < q0.len(),
        out0.to_multiset().add(q0.to_multiset()) == orig.to_multiset(),
    ensures
        out0.push(q0[m]).to_multiset().add(q0.remove(m).to_multiset()) == orig.to_multiset(),
{
    broadcast use vstd::seq_lib::group_to_multiset_ensures;
    broadcast use vstd::multiset::group_multiset_axioms;

    let x = q0[m];
    assert(q0.contains(x));
    assert(q0.to_multiset().count(x) > 0);
    assert(out0.push(x).to_multiset() =~= out0.to_multiset().insert(x));
    assert(q0.remove(m).to_multiset() =~= q0.to_multiset().remove(x));
    assert(out0.push(x).to_multiset().add(q0.remove(m).to_multiset()) =~= orig.to_multiset());
}

/// Two queues holding the same orders serve the same destination floors.
pub proof fn lemma_same_contents_same_floors(a: Seq<Order>, b: Seq<Order>)
    requires
        a.to_multiset() == b.to_multiset(),
    ensures
        forall|f: i8| contains_floor(a, f) == contains_floor(b, f),
{
    broadcast use vstd::seq_lib::group_to_multiset_ensures;

    assert forall|f: i8| contains_floor(a, f) == contains_floor(b, f) by {
        if contains_floor(a, f) {
            let i = choose|i: int| 0 <= i < a.len() && a[i].floor.num == f;
            assert(a.contains(a[i]));
            assert(b.to_multiset().count(a[i]) > 0);
            assert(b.contains(a[i]));
            let j = choose|j: int| 0 <= j < b.len() && b[j] == a[i];
            assert(b[j].floor.num == f);
        }
        if contains_floor(b, f) {
            let i = choose|i: int| 0 <= i < b.len() && b[i].floor.num == f;
            assert(b.contains(b[i]));
            assert(a.to_multiset().count(b[i]) > 0);
            assert(a.contains(b[i]));
            let j = choose|j: int| 0 <= j < a.len() && a[j] == b[i];
            assert(a[j].floor.num == f);
        }
    };
}

/// Reordering a queue cannot introduce a duplicate destination floor.
pub proof fn lemma_same_contents_no_dup(a: Seq<Order>, b: Seq<Order>)
    requires
        a.to_multiset() == b.to_multiset(),
        no_dup_floors(a),
    ensures
        no_dup_floors(b),
{
    broadcast use vstd::seq_lib::group_to_multiset_ensures;
    broadcast use vstd::multiset::group_multiset_axioms;

    assert forall|i: int, j: int| 0 <= i < j < b.len() implies b[i].floor.num != b[j].floor.num by {
        if b[i].floor.num == b[j].floor.num {
            let x = b[i];
            let y = b[j];
            if x == y {
                let b1 = b.remove(j);
                b.remove_ensures(j);
                assert(b1[i] == x);
                assert(b1.contains(x));
                assert(b1.to_multiset() =~= b.to_multiset().remove(x));
                assert(b1.to_multiset().count(x) > 0);
                assert(a.to_multiset().count(x) >= 2);
                assert(a.contains(x));
                let k = choose|k: int| 0 <= k < a.len() && a[k] == x;
                let a1 = a.remove(k);
                a.remove_ensures(k);
                assert(a1.to_multiset() =~= a.to_multiset().remove(x));
                assert(a1.to_multiset().count(x) > 0);
                assert(a1.contains(x));
                let l = choose|l: int| 0 <= l < a1.len() && a1[l] == x;
                if l < k {
                    assert(a[l] == x);
                    assert(a[l].floor.num == a[k].floor.num);
                } else {
                    assert(a[l + 1] == x);
                    assert(a[l + 1].floor.num == a[k].floor.num);
                }
                assert(false);
            } else {
                assert(b.contains(x));
                assert(b.contains(y));
                assert(a.to_multiset().count(x) > 0);
                assert(a.to_multiset().count(y) > 0);
                assert(a.contains(x));
                assert(a.contains(y));
                let k1 = choose|k1: int| 0 <= k1 < a.len() && a[k1] == x;
                let k2 = choose|k2: int| 0 <= k2 < a.len() && a[k2] == y;
                assert(a[k1].floor.num == a[k2].floor.num);
                assert(false);
            }
        }
    };
}

/// Sorts a queue for travel in `direction`: ascending floor numbers for Up
/// (and for an idle car), descending for Down. The queue's contents are kept
/// exactly, so no destination is gained, lost, or duplicated.
pub fn sort_queue(queue: &mut Vec<Order>, direction: ElevatorDirection)
    ensures
        sorted_by_dir(final(queue)@, direction),
        final(queue)@.to_multiset() == old(queue)@.to_multiset(),
        final(queue)@.len() == old(queue)@.len(),
        forall|f: i8| contains_floor(final(queue)@, f) == contains_floor(old(queue)@, f),
        no_dup_floors(old(queue)@) ==> no_dup_floors(final(queue)@),
{
    let ghost orig = queue@;
    let mut out: Vec<Order> = Vec::new();

    proof {
        broadcast use vstd::multiset::group_multiset_axioms;
        broadcast use vstd::seq_lib::group_to_multiset_ensures;

        assert(out@.to_multiset().len() == 0);
        assert forall|y: Order|
            out@.to_multiset().add(queue@.to_multiset()).count(y) == queue@.to_multiset().count(
                y,
            ) by {
            assert(out@.to_multiset().count(y) <= out@.to_multiset().len());
        };
        assert(out@.to_multiset().add(queue@.to_multiset()) =~= queue@.to_multiset());
    }

    while queue.len() > 0
        invariant
            out@.to_multiset().add(queue@.to_multiset()) == orig.to_multiset(),
            sorted_by_dir(out@, direction),
            forall|k: int, l: int|
                0 <= k < out@.len() && 0 <= l < queue@.len() ==> dir_le(
                    direction,
                    out@[k].floor.num,
                    queue@[l].floor.num,
                ),
        decreases queue@.len(),
    {
        let mut m: usize = 0;
        let mut j: usize = 1;
        while j < queue.len()
            invariant
                0 < queue@.len(),
                0 <= m < j,
                j <= queue@.len(),
                forall|l: int|
                    0 <= l < j ==> dir_le(
                        direction,
                        queue@[m as int].floor.num,
                        queue@[l].floor.num,
                    ),
            decreases queue@.len() - j,
        {
            if precedes(queue[j], queue[m], direction) {
                m = j;
            }
            j = j + 1;
        }

        let ghost q0 = queue@;
        let ghost out0 = out@;
        let x = queue.remove(m);
        out.push(x);

        proof {
            lemma_move_keeps_contents(out0, q0, m as int, orig);
            q0.remove_ensures(m as int);
            assert forall|k: int| 0 <= k < out0.len() implies dir_le(
                direction,
                out0[k].floor.num,
                x.floor.num,
            ) by {
                assert(dir_le(direction, out0[k].floor.num, q0[m as int].floor.num));
            };
            assert forall|l: int| 0 <= l < queue@.len() implies dir_le(
                direction,
                x.floor.num,
                queue@[l].floor.num,
            ) by {
                if l < m {
                    assert(queue@[l] == q0[l]);
                } else {
                    assert(queue@[l] == q0[l + 1]);
                }
            };
        }
    }

    proof {
        broadcast use vstd::multiset::group_multiset_axioms;
        broadcast use vstd::seq_lib::group_to_multiset_ensures;

        assert(queue@.to_multiset().len() == 0);
        assert(out@.to_multiset() =~= orig.to_multiset());
        assert(out@.len() == out@.to_multiset().len());
        assert(orig.len() == orig.to_multiset().len());
        lemma_same_contents_same_floors(out@, orig);
        if no_dup_floors(orig) {
            lemma_same_contents_no_dup(orig, out@);
        }
    }

    *queue = out;
}

/// A freshly appended order is counted once more; every other floor's count
/// is unchanged.
proof fn lemma_count_floor_push(q: Seq<Order>, o: Order, f: i8)
    ensures
        count_floor(q.push(o), f) == count_floor(q, f) + (if o.floor.num == f {
            1nat
        } else {
            0nat
        }),
{
    assert(q.push(o).drop_last() =~= q);
    assert(q.push(o).last() == o);
}

/// A queue serves floor `f` exactly when it holds at least one order for it.
pub proof fn lemma_contains_count(q: Seq<Order>, f: i8)
    ensures
        contains_floor(q, f) <==> count_floor(q, f) > 0,
    decreases q.len(),
{
    if q.len() > 0 {
        lemma_contains_count(q.drop_last(), f);
        if q.last().floor.num == f {
            assert(q[q.len() - 1].floor.num == f);
        }
        if contains_floor(q, f) {
            let i = choose|i: int| 0 <= i < q.len() && q[i].floor.num == f;
            if i < q.len() - 1 {
                assert(q.drop_last()[i].floor.num == f);
            }
        }
        if count_floor(q.drop_last(), f) > 0 {
            let i = choose|i: int| 0 <= i < q.drop_last().len() && q.drop_last()[i].floor.num == f;
            assert(q[i].floor.num == f);
        }
    }
}

/// A queue without duplicate destinations holds at most one order per floor.
pub proof fn lemma_no_dup_count(q: Seq<Order>, f: i8)
    requires
        no_dup_floors(q),
    ensures
        count_floor(q, f) <= 1,
    decreases q.len(),
{
    if q.len() > 0 {
        assert forall|i: int, j: int| 0 <= i < j < q.drop_last().len() implies q.drop_last()[i].floor.num
            != q.drop_last()[j].floor.num by {
            assert(q[i].floor.num != q[j].floor.num);
        };
        lemma_no_dup_count(q.drop_last(), f);
        if q.last().floor.num == f && count_floor(q.drop_last(), f) > 0 {
            lemma_contains_count(q.drop_last(), f);
            let i = choose|i: int| 0 <= i < q.drop_last().len() && q.drop_last()[i].floor.num == f;
            assert(q[i].floor.num == q[q.len() - 1].floor.num);
            assert(false);
        }
    }
}

/// Filing an order never introduces a duplicate destination floor.
pub proof fn lemma_add_preserves_no_dup(q: Seq<Order>, o: Order)
    requires
        no_dup_floors(q),
    ensures
        no_dup_floors(add_to_queue_spec(q, o)),
{
    if !contains_floor(q, o.floor.num) {
        let q1 = q.push(o);
        assert forall|i: int, j: int| 0 <= i < j < q1.len() implies q1[i].floor.num
            != q1[j].floor.num by {
            if j == q.len() {
                assert(q[i].floor.num != o.floor.num);
            } else {
                assert(q[i].floor.num != q[j].floor.num);
            }
        };
    }
}

/// After filing an order, a queue serves exactly the floors it served before,
/// plus the order's own destination.
pub proof fn lemma_add_contains(q: Seq<Order>, o: Order)
    ensures
        forall|x: i8|
            contains_floor(add_to_queue_spec(q, o), x) == (contains_floor(q, x) || x
                == o.floor.num),
{
    assert forall|x: i8|
        contains_floor(add_to_queue_spec(q, o), x) == (contains_floor(q, x) || x
            == o.floor.num) by {
        let q1 = add_to_queue_spec(q, o);
        if contains_floor(q, x) {
            let i = choose|i: int| 0 <= i < q.len() && q[i].floor.num == x;
            assert(q1[i].floor.num == x);
        }
        if !contains_floor(q, o.floor.num) {
            assert(q1[q.len() as int].floor.num == o.floor.num);
        }
        if contains_floor(q1, x) && q1 != q {
            let i = choose|i: int| 0 <= i < q1.len() && q1[i].floor.num == x;
            if i < q.len() {
                assert(q[i].floor.num == x);
            }
        }
    };
}

/// Two queues holding the same orders, with no duplicate destinations, and
/// both ordered for the same direction are the same queue: a duplicate-free
/// queue has exactly one direction-consistent arrangement.
pub proof fn lemma_sorted_unique(s1: Seq<Order>, s2: Seq<Order>, d: ElevatorDirection)
    requires
        s1.to_multiset() == s2.to_multiset(),
        sorted_by_dir(s1, d),
        sorted_by_dir(s2, d),
        no_dup_floors(s1),
    ensures
        s1 == s2,
    decreases s1.len(),
{
    broadcast use vstd::seq_lib::group_to_multiset_ensures;
    broadcast use vstd::multiset::group_multiset_axioms;

    lemma_same_contents_no_dup(s1, s2);
    assert(s1.to_multiset().len() == s1.len());
    assert(s2.to_multiset().len() == s2.len());
    if s1.len() == 0 {
        assert(s2.len() == 0);
        assert(s1 =~= s2);
    } else {
        assert(s1.len() == s2.len());
        let x = s1[0];
        let y = s2[0];
        assert(s1.contains(x));
        assert(s2.to_multiset().count(x) > 0);
        assert(s2.contains(x));
        let j = choose|j: int| 0 <= j < s2.len() && s2[j] == x;
        assert(s2.contains(y));
        assert(s1.to_multiset().count(y) > 0);
        assert(s1.contains(y));
        let i = choose|i: int| 0 <= i < s1.len() && s1[i] == y;
        if i > 0 && j > 0 {
            assert(dir_le(d, s1[0].floor.num, s1[i].floor.num));
            assert(dir_le(d, s2[0].floor.num, s2[j].floor.num));
            assert(x.floor.num != y.floor.num);
            assert(false);
        }
        assert(s1[0] == s2[0]);

        let t1 = s1.drop_first();
        let t2 = s2.drop_first();
        assert(s1.remove(0) =~= t1);
        assert(s2.remove(0) =~= t2);
        assert(t1.to_multiset() =~= s1.to_multiset().remove(x));
        assert(t2.to_multiset() =~= s2.to_multiset().remove(x));
        assert forall|k: int, l: int| 0 <= k < l < t1.len() implies dir_le(
            d,
            t1[k].floor.num,
            t1[l].floor.num,
        ) by {
            assert(t1[k] == s1[k + 1]);
            assert(t1[l] == s1[l + 1]);
        };
        assert forall|k: int, l: int| 0 <= k < l < t2.len() implies dir_le(
            d,
            t2[k].floor.num,
            t2[l].floor.num,
        ) by {
            assert(t2[k] == s2[k + 1]);
            assert(t2[l] == s2[l + 1]);
        };
        assert forall|k: int, l: int| 0 <= k < l < t1.len() implies t1[k].floor.num
            != t1[l].floor.num by {
            assert(t1[k] == s1[k + 1]);
            assert(t1[l] == s1[l + 1]);
        };
        lemma_sorted_unique(t1, t2, d);
        assert forall|k: int| 0 <= k < s1.len() implies s1[k] == s2[k] by {
            if k > 0 {
                assert(s1[k] == t1[k - 1]);
                assert(s2[k] == t2[k - 1]);
            }
        };
        assert(s1 =~= s2);
    }
}

/// Duplicate suppression is idempotent: filing two orders for the same
/// destination floor into a queue that has no duplicate destinations leaves
/// exactly one order for that floor.
pub proof fn lemma_duplicate_suppression(q: Seq<Order>, o1: Order, o2: Order)
    requires
        o1.floor.num == o2.floor.num,
        no_dup_floors(q),
    ensures
        count_floor(add_to_queue_spec(add_to_queue_spec(q, o1), o2), o2.floor.num) == 1,
{
    let f = o1.floor.num;
    lemma_no_dup_count(q, f);
    lemma_contains_count(q, f);
    let q1 = add_to_queue_spec(q, o1);
    if contains_floor(q, f) {
        assert(q1 == q);
        assert(add_to_queue_spec(q1, o2) == q1);
    } else {
        assert(q1 == q.push(o1));
        lemma_count_floor_push(q, o1, f);
        lemma_contains_count(q1, f);
        assert(contains_floor(q1, f));
        assert(add_to_queue_spec(q1, o2) == q1);
    }
}

} // verus!
