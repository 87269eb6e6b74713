//! Verified core of a throughput benchmark for concurrent FIFO queues: the
//! naming scheme that selects a queue, the settings read from the
//! environment, the queue handles, and the check of the results.
pub mod laws;
pub mod names;
pub mod queues;
pub mod results;
pub mod settings;
pub mod text;
