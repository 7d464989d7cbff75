//! A key-value store that logs the time of each key's last write.
//!
//! Every value lives in the table named after the store's namespace; the time
//! of its last write lives in the shared table `"log"`, under a key made of
//! the namespace and the value's key. The tables themselves are kept by the
//! `redb` engine.

pub mod clock;
pub mod engine;
pub mod error;
pub mod laws;
pub mod model;
pub mod order;
pub mod outcome;
pub mod rdb;
pub mod text;
