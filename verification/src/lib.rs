//! Export pruning for a bundler's per-file transform step.
//!
//! From a nested route manifest and the path of the module at hand, the
//! library decides which export-pruning passes apply to that module, and
//! runs them over a model of the module's top-level declarations.

pub mod config;
pub mod entry;
pub mod error;
pub mod json;
pub mod keep_export;
pub mod laws;
pub mod module;
pub mod names;
pub mod options;
pub mod prune;
pub mod remove_export;
pub mod routes;
pub mod transform;

pub use config::{parse_routes_config, parse_routes_manifest, routes_from_json, ConfigError, ShapeFault};
pub use entry::{match_app_entry, match_route_entry};
pub use error::{PassKind, TransformError};
pub use keep_export::{keep_export, KeepExport};
pub use module::{Declaration, Export, Module};
pub use options::{KeepExportOptions, RemoveExportOptions, TransformFeatureOptions};
pub use remove_export::{remove_export, RemoveExport};
pub use routes::{get_routes_file, NestedRoutesManifest};
pub use transform::{transform, Transformation};
