//! The ways in which a schema can be rejected.

use vstd::prelude::*;

verus! {

/// Why a schema was rejected. Each of these ends the work on the struct in
/// which it occurs; nothing is derived from a rejected schema.
#[derive(Clone, Copy, Debug, PartialEq, Eq, Structural)]
pub enum ErrorKind {
    /// A bound of a version range is not a version number.
    MalformedAnnotation,
    /// A field carries more than one version directive.
    DuplicateAnnotation,
    /// A version range ends before it starts.
    InvalidRange,
}

/// A rejection together with the field that caused it.
#[derive(Clone, Copy, Debug, PartialEq, Eq, Structural)]
pub struct SchemaError {
    pub kind: ErrorKind,
    /// The position of the offending field among the schema's fields,
    /// counted from zero.
    pub field: usize,
}

impl ErrorKind {
    /// A short description for the user.
    pub fn message(&self) -> (text: &'static str)
        ensures
            text@ == self.spec_message(),
    {
        match self {
            ErrorKind::MalformedAnnotation => "a version bound is not a version number",
            ErrorKind::DuplicateAnnotation =>
                "`versioned_field` attribute encountered multiple times for one field",
            ErrorKind::InvalidRange => "`from` value must not be greater than `to`",
        }
    }

    /// The text that [`ErrorKind::message`] returns.
    pub open spec fn spec_message(&self) -> Seq<char> {
        match self {
            ErrorKind::MalformedAnnotation => "a version bound is not a version number"@,
            ErrorKind::DuplicateAnnotation =>
                "`versioned_field` attribute encountered multiple times for one field"@,
            ErrorKind::InvalidRange => "`from` value must not be greater than `to`"@,
        }
    }
}

} // verus!
