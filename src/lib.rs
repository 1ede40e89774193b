//! Live-query execution core: deciding which root field a subscription
//! watches, turning a feed of store change notifications into an ordered
//! stream of per-event executions, and bounding how many of those executions
//! may hold a store connection at once.
pub mod error;
pub mod gate;
pub mod root;
pub mod stream;
pub mod subscription;
pub mod text;
