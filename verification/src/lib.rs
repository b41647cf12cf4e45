//! Declarative records ("specs") that refer to one another by name.
//!
//! Records of several registered types are loaded from source folders, tracked
//! until every load has settled, and then every named reference is resolved to
//! a handle into the pool of its target type. Consumers are gated behind a
//! readiness state that is reached only when the whole record set resolved.
pub mod derive;
pub mod error;
pub mod loading;
pub mod name_index;
pub mod named_handle;
pub mod plugin;
pub mod plugin_group;
pub mod pool;
pub mod populate;
pub mod prelude;
