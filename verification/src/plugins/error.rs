//! Error types of the plugin system.

use vstd::prelude::*;
use crate::plugins::manifest::{PluginId, PluginVersion, version_text};
use crate::text::decimal;

verus! {

/// What went wrong in a plugin operation.
#[derive(Debug)]
pub enum PluginError {
    /// Manifest validation failed.
    ManifestValidation(String),
    /// Manifest signature verification failed.
    SignatureVerificationFailed,
    /// Plugin not found in the registry.
    PluginNotFound(PluginId),
    /// Plugin already loaded.
    PluginAlreadyLoaded(PluginId),
    /// WASM instantiation failed.
    WasmInstantiationFailed(String),
    /// WASM execution failed.
    WasmExecutionFailed(String),
    /// Type mismatch in the plugin API.
    TypeMismatch(&'static str),
    /// I/O failure on a path.
    IoError(String, String),
    /// The plugin reported an error.
    PluginError(String),
    /// Unsupported plugin version.
    UnsupportedVersion(PluginVersion),
    /// ML-DSA signing not available.
    MlDsaNotAvailable,
}

/// Result of a plugin operation.
pub type PluginResult<T> = Result<T, PluginError>;

impl PluginError {
    /// A manifest validation error with `msg`.
    pub fn manifest_validation(msg: &str) -> (e: PluginError)
        ensures
            e matches PluginError::ManifestValidation(m) && m@ == msg@,
    {
        PluginError::ManifestValidation(msg.to_owned())
    }

    /// An I/O error on `path` with `msg`.
    pub fn io_error(path: &str, msg: &str) -> (e: PluginError)
        ensures
            e matches PluginError::IoError(p, m) && p@ == path@ && m@ == msg@,
    {
        PluginError::IoError(path.to_owned(), msg.to_owned())
    }

    /// A WASM instantiation error with `msg`.
    pub fn wasm_instantiation(msg: &str) -> (e: PluginError)
        ensures
            e matches PluginError::WasmInstantiationFailed(m) && m@ == msg@,
    {
        PluginError::WasmInstantiationFailed(msg.to_owned())
    }

    /// A WASM execution error with `msg`.
    pub fn wasm_execution(msg: &str) -> (e: PluginError)
        ensures
            e matches PluginError::WasmExecutionFailed(m) && m@ == msg@,
    {
        PluginError::WasmExecutionFailed(msg.to_owned())
    }

    /// The diagnostic for this error.
    pub fn to_display_string(&self) -> (s: String)
        ensures
            s@ == plugin_error_text(*self),
    {
        match self {
            PluginError::ManifestValidation(msg) => {
                let mut s = String::from_str("Manifest validation failed: ");
                s.append(msg.as_str());
                s
            },
            PluginError::SignatureVerificationFailed => "Signature verification failed".to_owned(),
            PluginError::PluginNotFound(id) => {
                let mut s = String::from_str("Plugin not found: ");
                s.append(id.as_str());
                s
            },
            PluginError::PluginAlreadyLoaded(id) => {
                let mut s = String::from_str("Plugin already loaded: ");
                s.append(id.as_str());
                s
            },
            PluginError::WasmInstantiationFailed(msg) => {
                let mut s = String::from_str("WASM instantiation failed: ");
                s.append(msg.as_str());
                s
            },
            PluginError::WasmExecutionFailed(msg) => {
                let mut s = String::from_str("WASM execution failed: ");
                s.append(msg.as_str());
                s
            },
            PluginError::TypeMismatch(expected) => {
                let mut s = String::from_str("Type mismatch: expected ");
                s.append(expected);
                s
            },
            PluginError::IoError(path, msg) => {
                let mut s = String::from_str("IO error for ");
                s.append(path.as_str());
                s.append(": ");
                s.append(msg.as_str());
                s
            },
            PluginError::PluginError(msg) => {
                let mut s = String::from_str("Plugin error: ");
                s.append(msg.as_str());
                s
            },
            PluginError::UnsupportedVersion(v) => {
                let mut s = String::from_str("Unsupported plugin version: ");
                let t = v.to_display_string();
                s.append(t.as_str());
                s
            },
            PluginError::MlDsaNotAvailable => "ML-DSA signing not available (compile with --features ml-dsa)".to_owned(),
        }
    }
}

/// The diagnostic text of a plugin error.
pub open spec fn plugin_error_text(e: PluginError) -> Seq<char> {
    match e {
        PluginError::ManifestValidation(msg) => "Manifest validation failed: "@ + msg@,
        PluginError::SignatureVerificationFailed => "Signature verification failed"@,
        PluginError::PluginNotFound(id) => "Plugin not found: "@ + id.text(),
        PluginError::PluginAlreadyLoaded(id) => "Plugin already loaded: "@ + id.text(),
        PluginError::WasmInstantiationFailed(msg) => "WASM instantiation failed: "@ + msg@,
        PluginError::WasmExecutionFailed(msg) => "WASM execution failed: "@ + msg@,
        PluginError::TypeMismatch(expected) => "Type mismatch: expected "@ + expected@,
        PluginError::IoError(path, msg) => "IO error for "@ + path@ + ": "@ + msg@,
        PluginError::PluginError(msg) => "Plugin error: "@ + msg@,
        PluginError::UnsupportedVersion(v) => "Unsupported plugin version: "@ + version_text(v),
        PluginError::MlDsaNotAvailable => "ML-DSA signing not available (compile with --features ml-dsa)"@,
    }
}

} // verus!
