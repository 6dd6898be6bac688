//! The failures that a provider can report.

use vstd::prelude::*;

verus! {

/// Why an operation of the virtual filesystem failed.
#[derive(Debug)]
pub enum VfsError {
    /// The path names nothing.
    NotFound,
    /// The caller may not do this.
    PermissionDenied,
    /// Another failure of the underlying system, with its message.
    Other(String),
    /// The provider does not offer this operation.
    NotImplemented,
    /// The plugin could not be read, compiled, instantiated or initialized.
    PluginLoad(String),
    /// The guest answered with an error, or the sandboxed call faulted.
    GuestCall(String),
    /// A handle was presented that the table does not know.
    UnknownHandle,
}

impl VfsError {
    /// A short description of the failure, with the message where there is
    /// one.
    pub fn message(&self) -> (text: String)
        ensures
            self matches VfsError::Other(m) ==> text@ == m@,
            self matches VfsError::PluginLoad(m) ==> text@ == m@,
            self matches VfsError::GuestCall(m) ==> text@ == m@,
            self is NotFound ==> text@ == "not found"@,
            self is PermissionDenied ==> text@ == "permission denied"@,
            self is NotImplemented ==> text@ == "not implemented"@,
            self is UnknownHandle ==> text@ == "unknown handle"@,
    {
        match self {
            VfsError::NotFound => "not found".to_owned(),
            VfsError::PermissionDenied => "permission denied".to_owned(),
            VfsError::Other(m) => m.clone(),
            VfsError::NotImplemented => "not implemented".to_owned(),
            VfsError::PluginLoad(m) => m.clone(),
            VfsError::GuestCall(m) => m.clone(),
            VfsError::UnknownHandle => "unknown handle".to_owned(),
        }
    }
}

} // verus!
