use vstd::prelude::*;

verus! {

/// The backing store's error type, declared so that values of it can be
/// carried inside this crate's own error.
#[verifier::external_type_specification]
#[verifier::external_body]
pub struct ExSledError(sled::Error);

/// The codec's error type, declared so that values of it can be carried
/// inside this crate's own error.
#[verifier::external_type_specification]
#[verifier::external_body]
pub struct ExSerdeJsonError(serde_json::Error);

/// Everything the map can fail with: either the backing store reported a
/// failure, or a key or element could not be encoded or decoded. Absence of
/// a key is never an error; reads answer it with `None`.
#[derive(Debug)]
pub enum LWWMapError {
    SledError(sled::Error),
    SerdeError(serde_json::Error),
}

impl From<sled::Error> for LWWMapError {
    /// Tags a backing-store failure.
    fn from(error: sled::Error) -> Self {
        LWWMapError::SledError(error)
    }
}

impl vstd::std_specs::convert::FromSpecImpl<sled::Error> for LWWMapError {
    open spec fn obeys_from_spec() -> bool {
        true
    }

    open spec fn from_spec(error: sled::Error) -> Self {
        LWWMapError::SledError(error)
    }
}

impl From<serde_json::Error> for LWWMapError {
    /// Tags an encoding or decoding failure.
    fn from(error: serde_json::Error) -> Self {
        LWWMapError::SerdeError(error)
    }
}

impl vstd::std_specs::convert::FromSpecImpl<serde_json::Error> for LWWMapError {
    open spec fn obeys_from_spec() -> bool {
        true
    }

    open spec fn from_spec(error: serde_json::Error) -> Self {
        LWWMapError::SerdeError(error)
    }
}

} // verus!
