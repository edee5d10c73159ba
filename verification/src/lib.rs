//! Host-side engine of a multi-tool version manager: the version
//! specification model, the version resolver, the installed-version
//! manifest, the layered pin configuration, the virtual path translator,
//! and the plugin invocation layer.

pub mod aliases;
pub mod config;
pub mod invoke;
pub mod listing;
pub mod manifest;
pub mod paths;
pub mod resolver;
pub mod tool;
pub mod upgrade;
pub mod version;
pub mod version_spec;

pub use version::Version;
pub use version_spec::UnresolvedVersionSpec;
