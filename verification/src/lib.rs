//! A bounded-concurrency crawl scheduler.
//!
//! The crate owns the pieces of a crawler that decide things: the work-queue
//! state machine that hands out requests and tracks retries, the scheduler
//! that enforces a concurrency ceiling and drives every request to a terminal
//! state, the batched output sink, and record extraction. Fetching pages and
//! delivering flushed batches are left to the embedding program, which hands
//! this crate plain values and takes plain values back.

pub mod basic_crawler;
pub mod crawler;
pub mod errors;
pub mod extract_fn;
pub mod input;
pub mod proxy;
pub mod request;
pub mod requestlist;
pub mod sink;
