//! Verified core of a local decision service built around a JDM rules
//! engine: decision identifiers, workspace scanning rules, the compiled
//! decision registry, configuration parsing and the HTTP decision rules.

pub mod ident;
pub mod paths;
pub mod diagnostics;
pub mod index;
pub mod engine;
pub mod clock;
pub mod registry;
pub mod api;
pub mod values;
pub mod config;
pub mod json;
pub mod order;
pub mod scan;
pub mod laws;
