//! The reasons a URL can be refused.
use vstd::prelude::*;

verus! {

/// Reasons for refusing a URL. The validating operations of this library
/// report a refusal as `false` or `None`; they never produce one of these.
#[derive(Clone, Copy, Debug, PartialEq, Eq, Structural)]
pub enum ValidationError {
    /// The URL format is invalid
    InvalidFormat,
    /// The platform is not supported
    UnsupportedPlatform,
    /// The URL is empty or contains invalid characters
    MalformedUrl,
}

impl ValidationError {
    /// The message that describes this error.
    pub fn message(&self) -> (r: &'static str)
        ensures
            r@ == match self {
                ValidationError::InvalidFormat => "Invalid URL format"@,
                ValidationError::UnsupportedPlatform => "Unsupported video platform"@,
                ValidationError::MalformedUrl => "Malformed URL"@,
            },
    {
        match self {
            ValidationError::InvalidFormat => "Invalid URL format",
            ValidationError::UnsupportedPlatform => "Unsupported video platform",
            ValidationError::MalformedUrl => "Malformed URL",
        }
    }
}

} // verus!
