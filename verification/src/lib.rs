//! Verified core of a batch compatibility-test runner for WebAssembly
//! packages.
//!
//! An *experiment* names a package, arguments, environment variables and
//! filters selecting a population of registry packages.  The pipeline
//! discovers package versions from a registry, caches their artifacts on
//! disk, runs each one under the `wasmer` CLI and aggregates the per-case
//! reports.  This crate holds the pipeline's decision logic — templating,
//! filtering, cache layout, command construction, outcome classification
//! and the orchestration state machine — with contracts checked by Verus.
//! The surrounding I/O (HTTP, filesystem, process spawning) lives outside
//! the library and executes the plans this crate produces.

pub mod cache;
pub mod cli;
pub mod config;
pub mod discovery;
pub mod endpoint;
pub mod orchestrator;
pub mod progress;
pub mod registry;
pub mod render;
pub mod results;
pub mod runner;
pub mod strutil;
pub mod template;
