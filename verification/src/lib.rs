use vstd::prelude::*;

pub mod json;
pub mod outline;
pub mod store;
pub mod text;
pub mod title;

verus! {

/// The failures that outline extraction can report. Each variant names the
/// structural step that failed; extraction aborts with no partial result.
#[derive(Clone, Copy, Debug, PartialEq, Eq, Structural)]
pub enum OutlineError {
    /// The trailer has no `Root` entry, or its value is not a reference.
    MissingRoot,
    /// The catalog reference does not resolve to a dictionary.
    InvalidCatalog,
    /// The `Outlines` entry is missing, is not a reference, does not resolve,
    /// or a chain node is missing or is not a dictionary.
    InvalidOutlines,
    /// The outline root object is not a dictionary.
    InvalidOutlineRoot,
    /// A title marked as UTF-16BE could not be decoded.
    DecodeUtf16,
    /// The sibling/child graph contains a cycle, so no finite tree exists.
    CyclicOutline,
}

impl OutlineError {
    /// A human-readable description of the failure.
    pub fn message(&self) -> &'static str {
        match self {
            OutlineError::MissingRoot => "missing or invalid Root in trailer",
            OutlineError::InvalidCatalog => "catalog object is not a dictionary",
            OutlineError::InvalidOutlines => "outlines object is not found or invalid",
            OutlineError::InvalidOutlineRoot => "outline root dictionary is invalid",
            OutlineError::DecodeUtf16 => "failed to decode bytes as UTF-16BE",
            OutlineError::CyclicOutline => "outline graph contains a cycle",
        }
    }
}

} // verus!
