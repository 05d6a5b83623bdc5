//! Verified core of an operations backend: a notification batching
//! dispatcher that coalesces keyed messages, debounces flushes under a
//! single in-flight worker, and chunks outbound payloads under a size
//! budget, together with the pure decision logic of the surrounding
//! request handlers.

pub mod attendance;
pub mod batcher;
pub mod chunk;
pub mod orders;
pub mod protocol;
pub mod schedule;

pub use attendance::parse_check_in_uid;
pub use batcher::Batcher;
pub use chunk::chunk_messages;
pub use orders::Status;
pub use orders::UpdateOrder;
pub use orders::UpdateRejection;
pub use orders::validate_status_update;
pub use schedule::Team;
