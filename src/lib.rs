//! Core pieces of a discrete-event network simulator: the host partitioner
//! that hands simulated hosts to worker threads, the log record pipeline
//! that funnels records from many threads to one writer, the bookkeeping of
//! the child-pid watcher, and the context bundles, syscall dispatch table and
//! trace formatting that the rest of the simulator rides on.

pub mod childpid;
pub mod context;
pub mod formatting;
pub mod host;
pub mod log_queue;
pub mod logger;
pub mod scheduler;
pub mod syscall;
pub mod text;
pub mod thread_per_host;
