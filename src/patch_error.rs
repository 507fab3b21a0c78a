use vstd::prelude::*;

verus! {

#[verifier::external_type_specification]
#[verifier::external_body]
pub struct ExIoError(std::io::Error);

#[verifier::external_type_specification]
#[verifier::external_body]
pub struct ExParseIntError(std::num::ParseIntError);

/// What can go wrong while a patch is applied.
#[derive(Debug)]
pub enum PatchError {
    IOError(std::io::Error),
    ParseIntError(std::num::ParseIntError),
    Error(&'static str),
}

pub type PatchResult<T> = Result<T, PatchError>;

impl From<std::io::Error> for PatchError {
    fn from(value: std::io::Error) -> (r: Self)
        ensures
            r == PatchError::IOError(value),
    {
        Self::IOError(value)
    }
}

impl vstd::std_specs::convert::FromSpecImpl<std::io::Error> for PatchError {
    open spec fn obeys_from_spec() -> bool {
        true
    }

    open spec fn from_spec(v: std::io::Error) -> PatchError {
        PatchError::IOError(v)
    }
}

impl From<std::num::ParseIntError> for PatchError {
    fn from(value: std::num::ParseIntError) -> (r: Self)
        ensures
            r == PatchError::ParseIntError(value),
    {
        Self::ParseIntError(value)
    }
}

impl vstd::std_specs::convert::FromSpecImpl<std::num::ParseIntError> for PatchError {
    open spec fn obeys_from_spec() -> bool {
        true
    }

    open spec fn from_spec(v: std::num::ParseIntError) -> PatchError {
        PatchError::ParseIntError(v)
    }
}

} // verus!
