use vstd::prelude::*;

verus! {

/// Errors that may occur during operations related to a user profile.
///
/// The set of kinds is closed so that callers can branch on the kind.
/// The model layer itself never raises these: they originate from the
/// repository contract (and from deserialization of malformed objects).
#[derive(Debug)]
pub enum ProfileKitError {
    /// A general database error, containing an underlying message from the
    /// database layer.
    Database(String),
    /// A requested user profile could not be found.
    NotFound,
    /// The input provided to an operation is structurally invalid.
    /// Includes a message describing the reason.
    InvalidInput(String),
    /// User preferences were required but are missing in the profile.
    MissingPreferences,
    /// An attempt was made to create a user profile that already exists.
    AlreadyExists,
    /// A generic storage-related failure without diagnostic detail.
    StorageError,
}

} // verus!
