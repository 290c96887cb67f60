use crate::registry::{GuildId, QueueItem, QueueRegistry};
use vstd::prelude::*;
use vstd::rwlock::{RwLock, RwLockPredicate};

verus! {

/// What the lock of a shared registry admits: any registry.
pub struct AnyRegistry;

impl RwLockPredicate<QueueRegistry> for AnyRegistry {
    open spec fn inv(self, v: QueueRegistry) -> bool {
        true
    }
}

/// A queue registry that many threads use at once through a shared
/// reference. Every operation holds the one lock of the registry for its
/// whole length, so the operations of all threads take effect one at a
/// time, each as the same operation of `QueueRegistry` would.
pub struct SharedQueueRegistry {
    lock: RwLock<QueueRegistry, AnyRegistry>,
}

impl SharedQueueRegistry {
    /// Makes a shared registry that holds `registry`.
    pub fn from_registry(registry: QueueRegistry) -> (r: SharedQueueRegistry) {
        SharedQueueRegistry { lock: RwLock::new(registry, Ghost(AnyRegistry)) }
    }

    /// Makes a shared registry in which no key has a queue.
    pub fn new() -> (r: SharedQueueRegistry) {
        Self::from_registry(QueueRegistry::new())
    }

    /// Appends `(text, speaker_id)` to the tail of the queue for `guild_id`,
    /// under the lock.
    pub fn enqueue(&self, guild_id: GuildId, text: String, speaker_id: u64) {
        let (mut registry, handle) = self.lock.acquire_write();
        registry.enqueue(guild_id, text, speaker_id);
        handle.release_write(registry);
    }

    /// Removes and returns the oldest item queued for `guild_id`, under the
    /// lock; `None` where the key has no queue or an empty one.
    pub fn dequeue(&self, guild_id: GuildId) -> (r: Option<QueueItem>) {
        let (mut registry, handle) = self.lock.acquire_write();
        let r = registry.dequeue(guild_id);
        handle.release_write(registry);
        r
    }

    /// Drops the queue of `guild_id` with all its items, under the lock.
    pub fn clear(&self, guild_id: GuildId) {
        let (mut registry, handle) = self.lock.acquire_write();
        registry.clear(guild_id);
        handle.release_write(registry);
    }

    /// The number of items queued for `guild_id`, read under the lock.
    pub fn length(&self, guild_id: GuildId) -> (r: usize) {
        let handle = self.lock.acquire_read();
        let r = handle.borrow().length(guild_id);
        handle.release_read();
        r
    }

    /// Takes the registry back out of the lock.
    pub fn into_registry(self) -> (r: QueueRegistry) {
        self.lock.into_inner()
    }
}

} // verus!
