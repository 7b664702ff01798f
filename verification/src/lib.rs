//! A small domain-model library for user profiles: identity fields,
//! optional personal attributes and preferences with open-ended extra
//! fields, flat serialized objects with merge semantics, and the
//! repository contract a storage backend must satisfy.

/// Serialization to and from flat structured objects, and its laws.
pub mod codec;
/// The closed set of error kinds at the boundary.
pub mod error;
/// The profile, attributes and preferences records.
pub mod model;
/// Flat structured objects and their association-sequence model.
pub mod object;
/// The repository contract and an in-memory backend.
pub mod repository;
