//! Decision logic of Forge, a declarative orchestrator for local multi-cluster
//! Kubernetes environments.
//!
//! The library validates configurations, decides what the `up` and `stack`
//! commands do next, and checks the lines that a diff adds. It performs no
//! input or output: callers hand it plain values and carry out what it decides.

pub mod command;
pub mod config;
pub mod context;
pub mod digest;
pub mod error;
pub mod graph;
pub mod ip;
pub mod json;
pub mod lint;
pub mod naming;
pub mod numeral;
pub mod service;
pub mod stack;
pub mod state;
pub mod strmap;
pub mod text;
