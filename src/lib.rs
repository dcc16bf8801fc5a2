//! The worker side of a distributed document-conversion pipeline: the task
//! lifecycle of one worker thread, the frames it exchanges with the
//! dispatcher and the sink, the naming of pool threads, and the bookkeeping
//! of a pool of threads.
pub mod naming;
pub mod frames;
pub mod engine;
pub mod lifecycle;
pub mod pool;
pub mod logger;
