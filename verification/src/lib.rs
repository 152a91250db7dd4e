//! Client SDK for federated cloud compute services, centred on an
//! extension framework: native plugins are registered in a persisted
//! registry, expose capability methods under unified names, and feed
//! security verdicts into transport construction.

pub mod configuration;
pub mod extension;
pub mod extension_manager;
pub mod transport;
pub mod models;
pub mod registry;
pub mod strutil;
pub mod tes;
pub mod utils;
