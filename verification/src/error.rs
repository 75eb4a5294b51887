use vstd::prelude::*;

verus! {

/// What can stop the audit of a window before any verdict is reached.
#[derive(Clone, Copy, Debug, PartialEq, Eq, Structural)]
pub enum AuditError {
    /// The base URL of the endpoint was not configured.
    ConfigurationMissing,
    /// The columns of a response differ in length.
    Schema,
    /// A timestamp left the range of instants that UTC calendar time can hold.
    Arithmetic,
}

impl AuditError {
    /// The text shown for this error.
    pub open spec fn text(self) -> Seq<char> {
        match self {
            AuditError::ConfigurationMissing => "BASE_URL env variable is missing"@,
            AuditError::Schema => "response columns differ in length"@,
            AuditError::Arithmetic => "timestamp out of range"@,
        }
    }

    /// A one-line description, for diagnostics.
    pub fn message(&self) -> (s: &'static str)
        ensures
            s@ == self.text(),
    {
        match self {
            AuditError::ConfigurationMissing => "BASE_URL env variable is missing",
            AuditError::Schema => "response columns differ in length",
            AuditError::Arithmetic => "timestamp out of range",
        }
    }
}

} // verus!
