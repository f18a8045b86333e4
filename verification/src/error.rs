use vstd::prelude::*;

verus! {

/// `std::io::Error`, carried through as an opaque value.
#[verifier::external_type_specification]
#[verifier::external_body]
pub struct ExIoError(std::io::Error);

/// `serde_json::Error`, carried through as an opaque value.
#[verifier::external_type_specification]
#[verifier::external_body]
pub struct ExJsonError(serde_json::Error);

/// The error of the `dx` commands: a failed read or write, a malformed JSON
/// document, or a misuse of the command line whose message is shown as is.
pub enum DxError {
    Io(std::io::Error),
    Json(serde_json::Error),
    Usage(String),
}

impl DxError {
    /// The usage error whose message is `message`.
    pub open spec fn is_usage_with(self, message: Seq<char>) -> bool {
        self matches DxError::Usage(m) && m@ == message
    }
}

impl From<std::io::Error> for DxError {
    fn from(error: std::io::Error) -> (r: Self) {
        DxError::Io(error)
    }
}

impl vstd::std_specs::convert::FromSpecImpl<std::io::Error> for DxError {
    open spec fn obeys_from_spec() -> bool {
        true
    }

    open spec fn from_spec(v: std::io::Error) -> DxError {
        DxError::Io(v)
    }
}

impl From<serde_json::Error> for DxError {
    fn from(error: serde_json::Error) -> (r: Self) {
        DxError::Json(error)
    }
}

impl vstd::std_specs::convert::FromSpecImpl<serde_json::Error> for DxError {
    open spec fn obeys_from_spec() -> bool {
        true
    }

    open spec fn from_spec(v: serde_json::Error) -> DxError {
        DxError::Json(v)
    }
}

} // verus!
