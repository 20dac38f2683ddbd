//! The error type of the library and its conversions from the errors of
//! the packet source.

use vstd::prelude::*;
use vstd::std_specs::convert::FromSpecImpl;
use ogg::OggReadError;

verus! {

/// `std::io::Error`, carried through as an opaque value.
#[verifier::external_type_specification]
#[verifier::external_body]
pub struct ExIoError(std::io::Error);

/// `ogg::OggReadError`, the error of the packet reader, with its variants.
#[verifier::external_type_specification]
pub struct ExOggReadError(OggReadError);

/// Why identifying a stream failed.
#[derive(Debug)]
pub enum OggMetadataError {
    /// Bad format or not one recognized by this crate.
    UnrecognizedFormat,
    /// I/O error occured.
    ReadError(std::io::Error),
}

impl From<std::io::Error> for OggMetadataError {
    fn from(err: std::io::Error) -> (ret: OggMetadataError) {
        OggMetadataError::ReadError(err)
    }
}

impl FromSpecImpl<std::io::Error> for OggMetadataError {
    open spec fn obeys_from_spec() -> bool {
        true
    }

    open spec fn from_spec(err: std::io::Error) -> OggMetadataError {
        OggMetadataError::ReadError(err)
    }
}

impl From<OggReadError> for OggMetadataError {
    fn from(err: OggReadError) -> (ret: OggMetadataError) {
        match err {
            OggReadError::ReadError(err) => OggMetadataError::ReadError(err),
            _ => OggMetadataError::UnrecognizedFormat,
        }
    }
}

impl FromSpecImpl<OggReadError> for OggMetadataError {
    open spec fn obeys_from_spec() -> bool {
        true
    }

    open spec fn from_spec(err: OggReadError) -> OggMetadataError {
        match err {
            OggReadError::ReadError(err) => OggMetadataError::ReadError(err),
            _ => OggMetadataError::UnrecognizedFormat,
        }
    }
}

/// How a parse ends, as far as the bytes decide it: with a value, with a
/// header that is not recognized, or with too few bytes to read.
///
/// A short read surfaces as `OggMetadataError::ReadError`; which
/// `std::io::Error` it carries is left to the reader of the bytes.
pub enum Outcome<T> {
    Value(T),
    Unrecognized,
    ShortRead,
}

/// The outcome that a result of this library stands for.
pub open spec fn outcome_of<T>(r: Result<T, OggMetadataError>) -> Outcome<T> {
    match r {
        Ok(v) => Outcome::Value(v),
        Err(OggMetadataError::UnrecognizedFormat) => Outcome::Unrecognized,
        Err(OggMetadataError::ReadError(_)) => Outcome::ShortRead,
    }
}

impl OggMetadataError {
    /// A short description of the error.
    pub fn description(&self) -> (r: &'static str)
        ensures
            self is UnrecognizedFormat ==> r@ == "Unrecognized or invalid format"@,
            self is ReadError ==> r@ == "I/O error"@,
    {
        match self {
            OggMetadataError::UnrecognizedFormat => "Unrecognized or invalid format",
            OggMetadataError::ReadError(_) => "I/O error",
        }
    }

    /// The I/O error that caused this error, if one did.
    pub fn cause(&self) -> (r: Option<&std::io::Error>)
        ensures
            r == match *self {
                OggMetadataError::ReadError(err) => Some(&err),
                OggMetadataError::UnrecognizedFormat => None,
            },
    {
        match self {
            OggMetadataError::ReadError(err) => Some(err),
            OggMetadataError::UnrecognizedFormat => None,
        }
    }
}

} // verus!
