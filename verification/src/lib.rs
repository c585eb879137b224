//! Directories on a developer's machine, reached as `folder.domain.test`
//! through a local reverse proxy.
//!
//! The library holds the configuration store with its operations
//! ([`model`], [`domains`], [`environments`], [`services`], [`commands`]),
//! the rules by which a service's overrides are laid over an environment's
//! defaults ([`resolve`], [`run`]), and the generation pass that gives every
//! service folder a port and derives the proxy's artifacts from the
//! assignment ([`deploy`], [`hosts`], [`json`]). What holds of the operations
//! taken together is stated and proved in [`laws`].
//!
//! Everything here works on plain values. Reading and writing files, asking
//! the engine and parsing the command line are the caller's business.

pub mod commands;
pub mod containers;
pub mod deploy;
pub mod domains;
pub mod edit;
pub mod engine;
pub mod environments;
pub mod error;
pub mod hosts;
pub mod json;
pub mod laws;
pub mod model;
pub mod paths;
pub mod resolve;
pub mod run;
pub mod services;
pub mod settings;
pub mod shellrc;
pub mod slug;
pub mod strmap;
pub mod text;
pub mod validity;
