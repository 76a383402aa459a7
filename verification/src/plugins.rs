//! The plugin system: manifests, errors, the sandbox, and the effect and
//! tool plugin interfaces.

pub mod error;
pub mod manifest;
pub mod sandbox;
pub mod tool;
pub mod effect;
pub mod registry;
