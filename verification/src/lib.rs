//! Coordination core of a distributed rendering farm.
//!
//! The library holds the verified heart of the server: the registry of
//! connected clients, the queue of rendering jobs with its monotonic id
//! counter, the dispatch policy that pushes job metadata and work partitions
//! to worker clients, and the watchdog rule that decides which clients have
//! timed out.  Sockets, threads and the wire protocol live outside the
//! library; they feed plain values in and carry the decisions out.

pub mod client;
pub mod job;
pub mod laws;
pub mod server;
