//! Plugins: what a plugin declares of itself, what it may do, and what the
//! host offers it.

pub mod bus;
pub mod host_api;
pub mod loader;
pub mod manifest;
pub mod permissions;

pub use host_api::HostApi;
pub use loader::{LoadedPlugin, PluginLoader};
pub use manifest::{PluginManifest, ScriptLanguage};
pub use permissions::{NetworkPermission, PermissionSet};
