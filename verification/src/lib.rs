//! In-memory storage and routing for a small replicated log.
//!
//! `store` is the storage of a Raft node: its log (`log`), its state machine (`state_machine`), its
//! hard state and its current snapshot (`snapshot`). `router` is the network between nodes that run
//! in one process. Each type has a view, and the contracts speak of views. What the operations keep
//! and how they relate stands in the modules whose names end in `_laws`.

pub mod clients;
pub mod decimal;
pub mod entry;
pub mod error;
pub mod log;
pub mod log_laws;
pub mod membership;
pub mod ordered;
pub mod request;
pub mod router;
pub mod router_laws;
pub mod snapshot;
pub mod state_machine;
pub mod state_machine_laws;
pub mod store;
pub mod store_laws;
pub mod text_laws;
pub mod view_laws;
