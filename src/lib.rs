//! Ticket reservation under concurrent demand: an email syntax gate, a
//! fraud-screening gate, the read/write-set of a request, and an
//! optimistic-concurrency store of versioned ticket records.
pub mod email;
pub mod key;
pub mod fraud;
pub mod store;
