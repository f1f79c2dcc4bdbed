//! What can go wrong when the registry is asked for something.

use crate::models;
use vstd::prelude::*;
use vstd::string::StringExecFns;

verus! {

/// Why a request was not served.
#[derive(Debug, Clone, Copy, PartialEq, Eq)]
pub enum Error {
    /// The reference is malformed.
    Oci(models::Error),
    /// The path of the request is not valid UTF-8 once it is decoded.
    UTF8,
    /// The path of the request could not be read.
    InvalidPath,
    /// The reference names no registry.
    MissingRegistry,
    /// The source is not of exactly one kind.
    InvalidSource,
    /// A digest, an index key or a remote registry exists already.
    Conflict,
    /// What was asked for does not exist.
    NotFound,
    /// The store could not take what it was given.
    Storage,
}

/// The classes of errors, as a caller sees them.
#[derive(Debug, Clone, Copy, PartialEq, Eq)]
pub enum ErrorClass {
    /// The request is at fault: a malformed reference or a descriptor that
    /// fails a precondition.
    Client,
    /// What was to be made exists already.
    AlreadyExists,
    /// What was asked for does not exist.
    Missing,
    /// The registry is at fault.
    Server,
}

impl Error {
    /// The class of the error.
    pub open spec fn class_spec(self) -> ErrorClass {
        match self {
            Error::Oci(e) => ErrorClass::Client,
            Error::UTF8 => ErrorClass::Client,
            Error::InvalidPath => ErrorClass::Client,
            Error::MissingRegistry => ErrorClass::Client,
            Error::InvalidSource => ErrorClass::Client,
            Error::Conflict => ErrorClass::AlreadyExists,
            Error::NotFound => ErrorClass::Missing,
            Error::Storage => ErrorClass::Server,
        }
    }

    /// The class of the error.
    pub fn class(&self) -> (c: ErrorClass)
        ensures
            c == self.class_spec(),
    {
        match self {
            Error::Oci(_) => ErrorClass::Client,
            Error::UTF8 => ErrorClass::Client,
            Error::InvalidPath => ErrorClass::Client,
            Error::MissingRegistry => ErrorClass::Client,
            Error::InvalidSource => ErrorClass::Client,
            Error::Conflict => ErrorClass::AlreadyExists,
            Error::NotFound => ErrorClass::Missing,
            Error::Storage => ErrorClass::Server,
        }
    }

    /// The HTTP status that answers the error: 400 for a request at fault,
    /// 409 for what exists already, 404 for what does not exist, 500 else.
    pub fn status(&self) -> (code: u16)
        ensures
            code == match self.class_spec() {
                ErrorClass::Client => 400u16,
                ErrorClass::AlreadyExists => 409u16,
                ErrorClass::Missing => 404u16,
                ErrorClass::Server => 500u16,
            },
    {
        match self.class() {
            ErrorClass::Client => 400,
            ErrorClass::AlreadyExists => 409,
            ErrorClass::Missing => 404,
            ErrorClass::Server => 500,
        }
    }

    /// The error in words.
    pub fn to_string(&self) -> (r: String)
        ensures
            r@ == match *self {
                Error::Oci(e) => "Oci path error - "@ + match e {
                    models::Error::InvalidFormat =>
                        "Invalid format: the identifier format is invalid"@,
                    models::Error::MissingRepoOrTag =>
                        "Missing repository or tag: repository and tag are required"@,
                    models::Error::MissingNamespace => "Missing namespace: namespace is required"@,
                },
                Error::UTF8 => "UTF-8 error"@,
                Error::InvalidPath => "Invalid path!"@,
                Error::MissingRegistry => "Missing registry: the reference names no registry"@,
                Error::InvalidSource => "Invalid source type"@,
                Error::Conflict => "Conflict: the package exists already"@,
                Error::NotFound => "No entry in storage"@,
                Error::Storage => "Storage error"@,
            },
    {
        match self {
            Error::Oci(e) => {
                let mut r = String::from_str("Oci path error - ");
                r.append(e.to_string().as_str());
                r
            },
            Error::UTF8 => String::from_str("UTF-8 error"),
            Error::InvalidPath => String::from_str("Invalid path!"),
            Error::MissingRegistry => String::from_str(
                "Missing registry: the reference names no registry",
            ),
            Error::InvalidSource => String::from_str("Invalid source type"),
            Error::Conflict => String::from_str("Conflict: the package exists already"),
            Error::NotFound => String::from_str("No entry in storage"),
            Error::Storage => String::from_str("Storage error"),
        }
    }
}

} // verus!
