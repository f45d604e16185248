//! Sensor aggregation and serving engine of a local metrics exporter.
//!
//! The crate holds the decisions of the exporter: which collectors run and in
//! which order, how their text fragments are joined, when a cached reading is
//! too old to serve, when the sensor index is rebuilt, how the output of each
//! source is read, and how the reply to a scrape is framed. Processes,
//! sockets, files, the sensor library and floating-point conversion belong to
//! the program around it.

pub mod aggregator;
pub mod helper;
pub mod helpers;
pub mod pattern;
pub mod server;
pub mod text;
