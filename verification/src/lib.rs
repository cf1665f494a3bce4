//! A fixed-size worker thread pool, modelled and verified.
//!
//! The pool accepts opaque one-shot jobs, queues them in FIFO order, and
//! hands each queued job to exactly one of a bounded set of workers. This
//! crate verifies the pool's bookkeeping: the queue discipline, the worker
//! life cycle, and the accounting that shows every submitted job is started
//! in submission order and runs exactly once before the workers terminate.
//!
//! The actual OS threads, the channel, and the locking live outside the
//! verified core: a host program drives one `ThreadPool` value from its
//! threads under a lock, calling `recv` when a worker wants a job, running
//! the job, and reporting back with `finish`.

pub mod pool;
pub mod worker;

pub use pool::PoolCreationError;
pub use pool::Received;
pub use pool::ThreadPool;
pub use worker::Worker;
pub use worker::WorkerState;
