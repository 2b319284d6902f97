//! Types for the number rent API.
use vstd::prelude::*;

verus! {

/// SMS message inside a rent operation.
#[derive(Debug, Clone, PartialEq)]
pub struct RentMessage {
    /// Message id.
    pub id: i64,
    /// Service name.
    pub service: Option<String>,
    /// Full text.
    pub text: Option<String>,
    /// Extracted code.
    pub code: Option<String>,
    /// Creation timestamp.
    pub created_at: Option<String>,
}

} // verus!
