//! A rig that drives load into a target and measures what comes of it.
//!
//! This library holds what the rig computes and decides:
//!
//! - [`payload`]: serialisers that turn random draws into records, never
//!   more bytes of them than a budget allows;
//! - [`block`]: caches of blocks of payload, fixed or streaming, and
//!   [`common`], the receiver that lets a sender look at a block before it
//!   takes it;
//! - [`throttle`]: a token bucket that meters bytes;
//! - [`generator`]: the send loops of the TCP, Unix socket, gRPC and file
//!   generators, and how they are built from their configuration;
//! - [`blackhole`] and [`target_metrics`]: what absorbs and what scrapes;
//! - [`signals`] and [`orchestrator`]: the shutdown signal and the course
//!   of a run;
//! - [`config`] and [`labels`]: what the command line says;
//! - [`rng`], [`uri`] and [`text`]: random draws, target URIs and the bytes
//!   of numbers.
//!
//! Everything here computes on plain values. Sockets, files, clocks and the
//! task runtime belong to the program that links this library: it carries
//! out what is decided here and reports back what happened.

pub mod blackhole;
pub mod block;
pub mod common;
pub mod config;
pub mod generator;
pub mod labels;
pub mod orchestrator;
pub mod payload;
pub mod rng;
pub mod signals;
pub mod target_metrics;
pub mod text;
pub mod throttle;
pub mod uri;
