//! What can go wrong while a record set is loaded and resolved.
use vstd::prelude::*;

verus! {

/// A fault in the loaded record set. All faults of a session are collected and
/// reported together when its loads have settled.
#[derive(Debug, PartialEq, Eq)]
pub enum SpecError {
    /// The loader could not produce a value for this item.
    LoadFailure { item: u64 },
    /// A record of this type bears a name that an earlier record of the type
    /// bears already.
    DuplicateName { spec_type: usize, name: String },
    /// A reference in a record of type `owning_type` names a record that its
    /// target pool does not hold.
    UnresolvedName { owning_type: usize, field: String, name: String },
}

/// A misuse of the registration and loading surface of a session.
#[derive(Clone, Copy, Debug, PartialEq, Eq, Structural)]
pub enum ConfigError {
    /// Types and folders are registered before loading begins, and loading
    /// begins once.
    AlreadyLoading,
    /// No type is registered under this number.
    UnknownType,
    /// The loads have settled: the pools take no more records.
    Frozen,
    /// A record enters its pool with every reference unresolved.
    ResolvedReference,
}

} // verus!
