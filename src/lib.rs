//! Plugin activation engine for a disposable boot environment.
//!
//! The library decides; the caller acts. It turns a plugin's descriptor text
//! into typed provisioning actions, routes extracted files to their handlers,
//! and keeps the per-kind activation flags that make a run happen once.
pub mod text;
pub mod descriptor;
pub mod activation;
pub mod content;
pub mod layout;
pub mod invocation;
pub mod naming;
