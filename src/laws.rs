use crate::registry::{
    after_clear, after_dequeue, after_enqueue, dequeue_result, queue_in, GuildId, QueueItem,
};
use vstd::prelude::*;

verus! {

/// The map of queues after each of `items` is enqueued to `k`, in order.
pub open spec fn enqueue_all(m: Map<GuildId, Seq<QueueItem>>, k: GuildId, items: Seq<QueueItem>) -> Map<
    GuildId,
    Seq<QueueItem>,
>
    decreases items.len(),
{
    if items.len() == 0 {
        m
    } else {
        after_enqueue(enqueue_all(m, k, items.drop_last()), k, items.last())
    }
}

/// What `n` consecutive dequeues of `k` return, starting from `m`.
pub open spec fn drain(m: Map<GuildId, Seq<QueueItem>>, k: GuildId, n: nat) -> Seq<Option<QueueItem>>
    decreases n,
{
    if n == 0 {
        Seq::empty()
    } else {
        seq![dequeue_result(m, k)] + drain(after_dequeue(m, k), k, (n - 1) as nat)
    }
}

/// The map of queues after a run of operations on `k`, applied in order:
/// `Some(item)` enqueues `item`, `None` dequeues.
pub open spec fn run(m: Map<GuildId, Seq<QueueItem>>, k: GuildId, ops: Seq<Option<QueueItem>>) -> Map<
    GuildId,
    Seq<QueueItem>,
>
    decreases ops.len(),
{
    if ops.len() == 0 {
        m
    } else {
        let before = run(m, k, ops.drop_last());
        match ops.last() {
            Some(item) => after_enqueue(before, k, item),
            None => after_dequeue(before, k),
        }
    }
}

/// The number of enqueues in a run of operations.
pub open spec fn enqueue_count(ops: Seq<Option<QueueItem>>) -> nat
    decreases ops.len(),
{
    if ops.len() == 0 {
        0
    } else {
        enqueue_count(ops.drop_last()) + if ops.last() is Some {
            1nat
        } else {
            0nat
        }
    }
}

/// The number of dequeues in a run of operations on `k` from `m` that
/// returned an item.
pub open spec fn successful_dequeues(
    m: Map<GuildId, Seq<QueueItem>>,
    k: GuildId,
    ops: Seq<Option<QueueItem>>,
) -> nat
    decreases ops.len(),
{
    if ops.len() == 0 {
        0
    } else {
        successful_dequeues(m, k, ops.drop_last()) + if ops.last() is None && queue_in(
            run(m, k, ops.drop_last()),
            k,
        ).len() > 0 {
            1nat
        } else {
            0nat
        }
    }
}

/// Each item wrapped as a dequeue returns it.
pub open spec fn as_results(items: Seq<QueueItem>) -> Seq<Option<QueueItem>> {
    items.map_values(|it: QueueItem| Some(it))
}

/// Enqueuing appends: the queue of `k` grows by `items` at its tail.
pub proof fn lemma_enqueue_all_appends(m: Map<GuildId, Seq<QueueItem>>, k: GuildId, items: Seq<QueueItem>)
    ensures
        queue_in(enqueue_all(m, k, items), k) == queue_in(m, k) + items,
    decreases items.len(),
{
    if items.len() > 0 {
        lemma_enqueue_all_appends(m, k, items.drop_last());
        assert(queue_in(m, k) + items =~= (queue_in(m, k) + items.drop_last()).push(items.last()));
    }
}

/// Dequeuing as many times as the queue of `k` holds items returns those
/// items, oldest first.
pub proof fn lemma_drain_returns_queue(m: Map<GuildId, Seq<QueueItem>>, k: GuildId)
    ensures
        drain(m, k, queue_in(m, k).len()) == as_results(queue_in(m, k)),
    decreases queue_in(m, k).len(),
{
    let q = queue_in(m, k);
    if q.len() > 0 {
        let m2 = after_dequeue(m, k);
        assert(queue_in(m2, k) == q.drop_first());
        lemma_drain_returns_queue(m2, k);
        assert(as_results(q) =~= seq![Some(q[0])] + as_results(q.drop_first()));
    } else {
        assert(as_results(q) =~= Seq::empty());
    }
}

/// FIFO order: items enqueued to a key with an empty queue, and no dequeue
/// in between, come out of as many dequeues in exactly the order they went in.
pub proof fn lemma_fifo_order(m: Map<GuildId, Seq<QueueItem>>, k: GuildId, items: Seq<QueueItem>)
    requires
        queue_in(m, k).len() == 0,
    ensures
        drain(enqueue_all(m, k, items), k, items.len()) == as_results(items),
{
    lemma_enqueue_all_appends(m, k, items);
    assert(queue_in(m, k) + items =~= items);
    lemma_drain_returns_queue(enqueue_all(m, k, items), k);
}

/// Per-key isolation: enqueuing to `a` leaves the queue of every other key
/// `b`, its length and what a dequeue of it returns, as they were.
pub proof fn lemma_enqueue_isolated(
    m: Map<GuildId, Seq<QueueItem>>,
    a: GuildId,
    b: GuildId,
    item: QueueItem,
)
    requires
        a != b,
    ensures
        queue_in(after_enqueue(m, a, item), b) == queue_in(m, b),
        dequeue_result(after_enqueue(m, a, item), b) == dequeue_result(m, b),
{
}

/// Dequeuing or clearing `a` leaves the queue of every other key `b` as it
/// was.
pub proof fn lemma_dequeue_clear_isolated(m: Map<GuildId, Seq<QueueItem>>, a: GuildId, b: GuildId)
    requires
        a != b,
    ensures
        queue_in(after_dequeue(m, a), b) == queue_in(m, b),
        queue_in(after_clear(m, a), b) == queue_in(m, b),
{
}

/// An absent key and a key whose queue is empty look alike: length zero,
/// and a dequeue returns no item.
pub proof fn lemma_absent_like_empty(m: Map<GuildId, Seq<QueueItem>>, k: GuildId)
    requires
        !m.contains_key(k) || m[k].len() == 0,
    ensures
        queue_in(m, k).len() == 0,
        dequeue_result(m, k) is None,
{
}

/// Clearing a key drops all its items, whatever was enqueued before: its
/// length is zero and a dequeue of it returns no item.
pub proof fn lemma_clear_empties(m: Map<GuildId, Seq<QueueItem>>, k: GuildId)
    ensures
        !after_clear(m, k).contains_key(k),
        queue_in(after_clear(m, k), k).len() == 0,
        dequeue_result(after_clear(m, k), k) is None,
{
}

/// Length accuracy: over any run of enqueues and dequeues on `k`, the final
/// length plus the dequeues that returned an item equals the first length
/// plus the enqueues.
pub proof fn lemma_length_accounts(
    m: Map<GuildId, Seq<QueueItem>>,
    k: GuildId,
    ops: Seq<Option<QueueItem>>,
)
    ensures
        queue_in(run(m, k, ops), k).len() + successful_dequeues(m, k, ops) == queue_in(m, k).len()
            + enqueue_count(ops),
    decreases ops.len(),
{
    if ops.len() > 0 {
        lemma_length_accounts(m, k, ops.drop_last());
    }
}

/// Dequeuing an absent or empty queue, any number of times, returns no item
/// each time and changes nothing.
pub proof fn lemma_empty_dequeue_idle(m: Map<GuildId, Seq<QueueItem>>, k: GuildId, n: nat)
    requires
        queue_in(m, k).len() == 0,
    ensures
        after_dequeue(m, k) == m,
        run(m, k, Seq::new(n, |i: int| None::<QueueItem>)) == m,
        drain(m, k, n) == Seq::new(n, |i: int| None::<QueueItem>),
    decreases n,
{
    if n > 0 {
        lemma_empty_dequeue_idle(m, k, (n - 1) as nat);
        assert(Seq::new(n, |i: int| None::<QueueItem>).drop_last() =~= Seq::new(
            (n - 1) as nat,
            |i: int| None::<QueueItem>,
        ));
        assert(Seq::new(n, |i: int| None::<QueueItem>) =~= seq![None::<QueueItem>] + Seq::new(
            (n - 1) as nat,
            |i: int| None::<QueueItem>,
        ));
    } else {
        assert(Seq::new(n, |i: int| None::<QueueItem>) =~= Seq::empty());
    }
}

/// Whether a dequeue result is an item of originator `t`.
pub open spec fn returns_item_of(o: Option<QueueItem>, t: u64) -> bool {
    match o {
        Some(item) => item.1 == t,
        None => false,
    }
}

/// The items of originator `t` among `items`, in their order.
pub open spec fn items_of(items: Seq<QueueItem>, t: u64) -> Seq<QueueItem> {
    items.filter(|it: QueueItem| it.1 == t)
}

/// The results among `d` that are items of originator `t`, in their order.
pub open spec fn results_of(d: Seq<Option<QueueItem>>, t: u64) -> Seq<Option<QueueItem>> {
    d.filter(|o: Option<QueueItem>| returns_item_of(o, t))
}

/// Items enqueued to one key by several producers, interleaved in any order
/// onto an empty queue, all come out when the key is drained: none lost, none
/// twice, and the items of each originator in the order they went in.
pub proof fn lemma_interleaved_producers(
    m: Map<GuildId, Seq<QueueItem>>,
    k: GuildId,
    items: Seq<QueueItem>,
)
    requires
        queue_in(m, k).len() == 0,
    ensures
        drain(enqueue_all(m, k, items), k, items.len()).len() == items.len(),
        drain(enqueue_all(m, k, items), k, items.len()).to_multiset() == as_results(
            items,
        ).to_multiset(),
        forall|t: u64|
            results_of(drain(enqueue_all(m, k, items), k, items.len()), t) == as_results(#[trigger] items_of(items, t)),
{
    lemma_fifo_order(m, k, items);
    assert forall|t: u64|
        results_of(as_results(items), t)
            == as_results(#[trigger] items_of(items, t)) by {
        lemma_results_filter(items, t);
    }
}

proof fn lemma_results_filter(items: Seq<QueueItem>, t: u64)
    ensures
        results_of(as_results(items), t) == as_results(items_of(items, t)),
    decreases items.len(),
{
    reveal(Seq::filter);
    if items.len() > 0 {
        lemma_results_filter(items.drop_last(), t);
        assert(as_results(items).drop_last() =~= as_results(items.drop_last()));
        if items.last().1 == t {
            assert(as_results(items_of(items, t)) =~= as_results(items_of(items.drop_last(), t)).push(
                Some(items.last()),
            ));
        }
    } else {
        assert(as_results(items) =~= Seq::empty());
    }
}

} // verus!
