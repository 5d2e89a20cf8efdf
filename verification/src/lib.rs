//! Run many independent byte-producing tasks with bounded concurrency and
//! emit their output as one concatenated stream, in submission order.
//!
//! The modules model the stages of the pipeline: admission scheduling
//! (`scheduler`), the bounded per-task chunk queue (`channel`), chunk
//! assembly on the producer side (`chunker`), the order-preserving drain
//! (`drain`), the partial-write retry of the sink (`writer`), task
//! descriptor parsing (`parse`), and the configuration surface (`config`).

pub mod channel;
pub mod chunks;
pub mod config;
pub mod drain;
pub mod parse;
pub mod scheduler;
pub mod writer;

pub use channel::ChunkQueue;
pub use chunks::{chunk_bytes, ChunkAssembler};
pub use config::Config;
pub use drain::{run_tasks, RunReport, TaskResult};
pub use parse::{parse_command, split_object_path, CommandTask, ObjectPath};
pub use scheduler::Scheduler;
