//! Keys, operations and backups of a block indexer's key-value store.

pub mod backup;
pub mod base32hex;
pub mod block;
pub mod column_family;
pub mod connection;
pub mod decimal;
pub mod disk;
pub mod fault;
pub mod filing;
pub mod model;
pub mod operation;
pub mod order;
pub mod store;
pub mod text;
pub mod transaction_key;
