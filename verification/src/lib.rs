//! At-most-once work queues: the rules by which workers claim and delete
//! keyed records, poll, back off and are supervised, and the decisions of the
//! request handlers.
//!
//! The service itself keeps its records in a database and claims them with
//! SQL. [`queue_store::QueueStore`] is the reference model of that table, held
//! in memory: it states what a claim, a deletion, a commit and a rollback do,
//! and the laws in [`queue_laws`] are proved of it. What the service's workers
//! call at run time are the decisions: which keys to delete for a batch, how
//! long to wait after a poll, how to report the end of a unit.

pub mod idempotency_cleaner_worker;
pub mod poller;
pub mod queue_laws;
pub mod queue_store;
pub mod routes;
pub mod supervisor;
pub mod utils;
