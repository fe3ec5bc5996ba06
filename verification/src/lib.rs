//! Watches for settled writes to a `forwarded_port` file and turns them into
//! best-effort notification requests for a remote configuration API.
//!
//! The library holds the decision logic of that pipeline: classifying raw
//! filesystem events, parsing file contents into a port value, and encoding
//! the outbound request. The surrounding process (the watcher itself, file
//! reads, and the HTTP call) lives outside the library and consults these
//! functions for every decision.

pub mod events;
pub mod notifier;
pub mod pipeline;
pub mod ports;
pub mod text;
