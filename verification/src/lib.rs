//! The core of a payment gateway that stands in front of an unreliable,
//! rate-limited authorizer.
//!
//! - [`gateway`] holds the intake queue and the dispatch engine. The engine
//!   probes the authorizer with one request per tick and, once a probe
//!   comes back fast, lets a pool of workers drain the queue until one of
//!   them sees a failure or a slow answer.
//! - [`database`] is the storage engine: two in-memory streams of captured
//!   payments with the commands save, purge and summary.
//! - [`umbral_socket`] is the protocol between the two: frames on a byte
//!   stream, the routing of commands and the client's connection pool.
//!
//! The library decides and computes; it does no input or output. Sockets,
//! the calls to the authorizer and the JSON of the payloads belong to the
//! program around it. Amounts are exact: a payment counts thousandths of
//! the currency unit, a summary's total counts hundredths. Times are
//! milliseconds since the Unix epoch.
//!
//! [`seg_queue`] and [`clock`] are the two places where the library relies
//! on code that it does not prove: the lock-free queue of `crossbeam_queue`,
//! the wall clock of `std::time` and the calendar of `chrono`.

pub mod clock;
pub mod database;
pub mod gateway;
pub mod seg_queue;
pub mod umbral_socket;
