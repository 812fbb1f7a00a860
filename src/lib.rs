//! A fixed-size worker pool, reduced to its decisions.
//!
//! The library holds the state of a pool: the shared dispatch queue and the
//! state of each worker. Every step a worker or a submitter takes is a method
//! of [`pool::PoolCore`], verified against a model that records every task
//! ever accepted and which worker claimed it. The threads that run the steps,
//! the lock that serialises them and the tasks' own code live outside the
//! library.

pub mod worker;
pub mod queue;
pub mod pool;
