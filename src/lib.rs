//! Debounced batch aggregation of chat-message work, with a bounded ingestion
//! queue and a media-group correlation cache.
pub mod batch;
pub mod fetch;
pub mod media_group;
pub mod message;
pub mod queue;
pub mod scheduler;
