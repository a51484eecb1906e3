//! Capture of syscall and libcuda call events during a vLLM cold start.
//!
//! The kernel side emits one fixed-size record per probe hit, the user side
//! decodes the records, forwards them over a bounded channel, keeps those of
//! one process, and writes them as JSON Lines. This library holds the parts of
//! both sides that compute; `app/` holds the parts that talk to the kernel, the
//! terminal and the file system.
//!
//! - `event`, `bytes`: the event record and its layout on the ring buffer.
//! - `probes`: what is traced, under which ids, and where the programs attach.
//! - `emit`: the records that the kernel side emits.
//! - `drain`: forwarding of records to the consumer.
//! - `drain_run`: what draining the ring buffer comes to.
//! - `json`: the JSON object of an event.
//! - `json_read`: what reading such an object gives.
//! - `consumer`: the decisions of the consumer.
//! - `capture`: what a whole capture writes.
pub mod bytes;
pub mod capture;
pub mod consumer;
pub mod drain;
pub mod drain_run;
pub mod emit;
pub mod event;
pub mod json;
pub mod json_read;
pub mod probes;
