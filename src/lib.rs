//! Client-side access to a clustered key-value and query database: the bridge
//! between the engine's callback-driven I/O loop and the operations that
//! application threads submit concurrently.
pub mod bridge;
pub mod bucket;
pub mod error;
pub mod instance;
pub mod text;

pub use bridge::{CommandFamily, Delivery, Document, Event, PendingTable, RawResponse, Slot};
pub use bucket::{Bucket, Collection, Command, SharedBucket, SharedCollection, StoreMode};
pub use error::{CouchbaseError, STATUS_SUCCESS};
pub use instance::{ConnectParams, Instance, InstanceState, PumpAction, PumpPhase};
