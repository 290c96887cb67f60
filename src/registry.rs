use std::collections::{HashMap, VecDeque};
use vstd::prelude::*;

verus! {

broadcast use vstd::std_specs::hash::group_hash_axioms;

/// Identifier of one independent queue (a partition, such as a guild).
pub type GuildId = u64;

/// One queued work item: its payload text and the id of its originator.
pub type QueueItem = (String, u64);

/// A registry of independent FIFO queues, one per partition key.
///
/// A key has an entry only once something has been enqueued to it, and
/// loses it again on `clear`. An absent key and a key whose queue is empty
/// answer every query alike.
pub struct QueueRegistry {
    queues: HashMap<GuildId, VecDeque<QueueItem>>,
}

/// The queue held for `k` in a map of queues: empty where `k` has no entry.
pub open spec fn queue_in(m: Map<GuildId, Seq<QueueItem>>, k: GuildId) -> Seq<QueueItem> {
    if m.contains_key(k) {
        m[k]
    } else {
        Seq::empty()
    }
}

/// The map of queues after `item` is appended to the queue of `k`.
pub open spec fn after_enqueue(m: Map<GuildId, Seq<QueueItem>>, k: GuildId, item: QueueItem) -> Map<
    GuildId,
    Seq<QueueItem>,
> {
    m.insert(k, queue_in(m, k).push(item))
}

/// What a dequeue of `k` returns on the map of queues `m`: the head of the
/// queue of `k`, or `None` where that queue is absent or empty.
pub open spec fn dequeue_result(m: Map<GuildId, Seq<QueueItem>>, k: GuildId) -> Option<QueueItem> {
    if queue_in(m, k).len() == 0 {
        None
    } else {
        Some(queue_in(m, k)[0])
    }
}

/// The map of queues after a dequeue of `k`: its head is gone; where there
/// was none, nothing changes.
pub open spec fn after_dequeue(m: Map<GuildId, Seq<QueueItem>>, k: GuildId) -> Map<
    GuildId,
    Seq<QueueItem>,
> {
    if queue_in(m, k).len() == 0 {
        m
    } else {
        m.insert(k, queue_in(m, k).drop_first())
    }
}

/// The map of queues after `k` is cleared: its entry is gone.
pub open spec fn after_clear(m: Map<GuildId, Seq<QueueItem>>, k: GuildId) -> Map<
    GuildId,
    Seq<QueueItem>,
> {
    m.remove(k)
}

impl View for QueueRegistry {
    type V = Map<GuildId, Seq<QueueItem>>;

    /// The queues of the registry, by key; only keys with an entry appear.
    closed spec fn view(&self) -> Map<GuildId, Seq<QueueItem>> {
        Map::new(|k: GuildId| self.queues@.contains_key(k), |k: GuildId| self.queues@[k]@)
    }
}

impl QueueRegistry {
    /// The items queued for `k`, oldest first.
    pub open spec fn queue(&self, k: GuildId) -> Seq<QueueItem> {
        queue_in(self@, k)
    }

    /// Makes a registry in which no key has a queue.
    pub fn new() -> (r: QueueRegistry)
        ensures
            r@ == Map::<GuildId, Seq<QueueItem>>::empty(),
    {
        let r = QueueRegistry { queues: HashMap::new() };
        assert(r@ =~= Map::<GuildId, Seq<QueueItem>>::empty());
        r
    }

    /// Appends `(text, speaker_id)` to the tail of the queue for `guild_id`,
    /// creating that queue if the key has none.
    pub fn enqueue(&mut self, guild_id: GuildId, text: String, speaker_id: u64)
        ensures
            final(self)@ == after_enqueue(old(self)@, guild_id, (text, speaker_id)),
    {
        let mut q = match self.queues.remove(&guild_id) {
            Some(q) => q,
            None => VecDeque::new(),
        };
        q.push_back((text, speaker_id));
        self.queues.insert(guild_id, q);
        assert(self@ =~= old(self)@.insert(guild_id, old(self).queue(guild_id).push((text, speaker_id))));
    }

    /// Removes and returns the oldest item queued for `guild_id`, or `None`
    /// where the key has no queue or an empty one. Nothing changes then.
    pub fn dequeue(&mut self, guild_id: GuildId) -> (r: Option<QueueItem>)
        ensures
            r == dequeue_result(old(self)@, guild_id),
            final(self)@ == after_dequeue(old(self)@, guild_id),
    {
        match self.queues.remove(&guild_id) {
            None => {
                assert(self@ =~= old(self)@);
                None
            },
            Some(mut q) => {
                let r = q.pop_front();
                self.queues.insert(guild_id, q);
                if r.is_none() {
                    assert(self@ =~= old(self)@);
                } else {
                    assert(self@ =~= old(self)@.insert(guild_id, old(self).queue(guild_id).drop_first()));
                }
                r
            },
        }
    }

    /// Drops the queue of `guild_id` with all its items; does nothing where
    /// the key has none.
    pub fn clear(&mut self, guild_id: GuildId)
        ensures
            final(self)@ == after_clear(old(self)@, guild_id),
    {
        self.queues.remove(&guild_id);
        assert(self@ =~= old(self)@.remove(guild_id));
    }

    /// The number of items queued for `guild_id`: zero where it has no queue.
    pub fn length(&self, guild_id: GuildId) -> (r: usize)
        ensures
            r == self.queue(guild_id).len(),
    {
        match self.queues.get(&guild_id) {
            Some(q) => q.len(),
            None => 0,
        }
    }
}

} // verus!
