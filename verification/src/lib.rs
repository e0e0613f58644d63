//! The serving engine of toe, a small finger-style daemon.
//!
//! A client connects, sends at most one token and gets one answer: the
//! plan of the user it named, or a report on the state of the host. The
//! daemon starts with the rights of root, binds its socket, gives the
//! rights up for good and serves from a fixed number of workers.
//!
//! This library decides; it does not touch the operating system. Its
//! caller reads and writes sockets and files, runs the threads and makes
//! the system calls, and asks the library at each step what to do next.
//!
//! - [`bootstrap`]: the privileged start, step by step.
//! - [`pool`]: the books of the worker pool.
//! - [`handler`]: the handling of one connection.
//! - [`request`]: from the bytes of a message to a request.
//! - [`plan`]: where plans are kept.
//! - [`report`], [`sensors`]: the status report.
//! - [`config`]: the settings.
//! - [`time`], [`text`]: time and text as the report shows them.

pub mod bootstrap;
pub mod config;
pub mod handler;
pub mod plan;
pub mod pool;
pub mod report;
pub mod request;
pub mod sensors;
pub mod text;
pub mod time;
