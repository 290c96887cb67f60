//! Per-key FIFO queues of work items, kept in a registry keyed by partition id.

pub mod laws;
pub mod registry;
pub mod shared;

pub use registry::{GuildId, QueueItem, QueueRegistry};
pub use shared::SharedQueueRegistry;
