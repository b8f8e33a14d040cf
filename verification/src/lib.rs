//! A persistence adapter for `Task` records kept in a schema-less key-value
//! store. The library owns the verified core: the task model and its derived
//! identity, the lossless mapping between a task and a flat attribute map,
//! and the store semantics (upsert by key, fetch by key, last-write-wins)
//! stated over an in-memory store. The remote client sits outside.

pub mod attr;
pub mod codec;
pub mod store;
pub mod task;
