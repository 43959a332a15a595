//! Resolution and reconciliation engine of a Python environment manager.
//!
//! The crate turns registry metadata into a concrete package version and a
//! download choice, plans the content of the shared package cache, and plans
//! the file-system changes that bring a virtual environment in line with the
//! declared state.  No function touches the disk or the network: the caller
//! observes the outside world, hands the observation in, and performs the
//! actions it gets back.

pub mod cache;
pub mod cleanup;
pub mod config;
pub mod converge;
pub mod environment;
pub mod error;
pub mod fs;
pub mod installer;
pub mod interpreter;
pub mod memory;
pub mod paths;
pub mod reconcile;
pub mod registry;
pub mod resolve;
pub mod select;
pub mod text;
pub mod version;
