//! An in-process object store: named containers of named byte objects,
//! staged values for moving bytes in and out, and paged listings.
//!
//! `store` holds the state and its exact operations over the model of
//! `model`; `storage` shares one store behind a readers-writer lock;
//! `container` and `blobstore` are the handles and entry points on top.
pub mod blobstore;
pub mod container;
pub mod keyed;
pub mod laws;
pub mod model;
pub mod order;
pub mod storage;
pub mod store;
pub mod stream;
mod sync;
pub mod types;
pub mod values;

pub use blobstore::{
    container_exists, copy_object, create_container, delete_container, get_blobstore_stats,
    get_container, list_containers, move_object, reset_blobstore, BlobstoreStats,
};
pub use container::Container;
pub use storage::EmbeddedStorage;
pub use store::Store;
pub use stream::StreamObjectNames;
pub use types::{
    current_timestamp, validate_range, BlobstoreError, BlobstoreResult, ContainerMetadata,
    ContainerName, ObjectId, ObjectMetadata, ObjectName, ObjectSize, StoredContainer,
    StoredObject, Timestamp,
};
pub use values::{IncomingValue, IncomingValueStream, OutgoingValue, OutgoingValueStream};
