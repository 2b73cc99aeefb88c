//! In-memory chain state at the tip, kept current from canonical-state
//! notifications and hydrated lazily from a node's RPC.

pub mod account;
pub mod artifacts;
pub mod block;
pub mod builder;
pub mod cache;
pub mod chain;
pub mod changeset;
pub mod code;
pub mod error;
pub mod exex;
pub mod fetch;
pub mod fetch_guarantees;
pub mod guarantees;
pub mod history;
pub mod manager_core;
pub mod managers;
pub mod primitives;
pub mod rpc;
pub mod sort;
pub mod state;
pub mod stream;
pub mod table;
pub mod text;
pub mod transitions;
pub mod validation;

pub use builder::{RexSim, RexSimBuilder};
pub use changeset::StateUpdate;
pub use error::{FetchKind, SimError};
pub use fetch::FetchConfig;
pub use state::{StateSnapshot, StaticState};
