//! A host telemetry agent's core: stores of recent samples that expire,
//! the grouping and tagging of processes, the snapshot that is put together
//! from the stores, and the exchange with a service that scores process
//! names.

pub mod cache;
pub mod configuration;
pub mod monitor;
pub mod ollama;
pub mod os_tooling;
pub mod text;
