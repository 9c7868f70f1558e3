//! A key-value store with hash-table style commands over swappable storage
//! backends.
//!
//! A [`CommandRequest`] holds one of nine commands on the keys of a table.
//! [`dispatch`] carries it out on a [`Storage`] backend and answers with a
//! [`CommandResponse`]; a [`Service`] does the same behind a handle that
//! can be shared, with hooks around each command. Two backends are here:
//! [`MemTable`] keeps its tables in memory, [`SledDb`] in an embedded
//! database.

pub mod error;
pub mod pb;
pub mod service;
pub mod storage;

pub use error::KvError;
pub use pb::abi::{
    CommandRequest, CommandResponse, Hdel, Hexist, Hget, Hgetall, Hmdel, Hmexist, Hmget, Hmset,
    Hset, Kvpair, RequestData, Value,
};
pub use pb::combine_error_messages;
pub use service::{
    dispatch, dispatch_read, CommandService, Notify, NotifyMut, Service, ServiceInner,
};
pub use storage::memory::MemTable;
pub use storage::sleddb::{flip, ivec_to_key, SledDb};
pub use storage::{Storage, StorageIter};
