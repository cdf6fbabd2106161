//! A small task service: list, create, partially update, and delete todo
//! items held in a single store with auto-incremented ids.
//!
//! The [`task`] module holds the task row, the partial-update patch, and the
//! merge that applies a patch over a fetched row. The [`store`] module holds
//! the store itself with its four repository operations, together with the
//! laws the service obeys (fresh ids on insert, drift-free updates, silently
//! idempotent deletes, idempotent repeated updates). The [`http`] module maps
//! routed requests to store operations and pins down every status code and
//! response body.

pub mod task;
pub mod store;
pub mod http;
