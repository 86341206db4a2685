//! The SHDP protocol versions that this library knows on the wire.

use vstd::prelude::*;

use crate::errors::{Error, ErrorKind};

verus! {

/// A wire version that this library understands.
#[derive(Clone, Copy, PartialEq, Eq, Structural, Hash, Debug)]
pub enum Version {
    V1,
}

impl Version {
    /// Converts a wire version byte to a known version.
    ///
    /// Byte 1 is the only known version; byte 0 and every other byte are
    /// rejected with an `UnknownVersion` error carrying code `0b1010`.
    pub fn from_u8(value: u8) -> (r: Result<Self, Error>)
        ensures
            value == 1 <==> r is Ok,
            r is Ok ==> r->Ok_0 == Version::V1,
            r is Err ==> r->Err_0.code == 0b1010 && r->Err_0.kind is UnknownVersion,
    {
        match value {
            1 => Ok(Self::V1),
            _ => Err(Error {
                code: 0b1010,
                message: String::from_str("Unknown version"),
                kind: ErrorKind::UnknownVersion,
            }),
        }
    }

    /// Converts a known version back to its wire byte.
    pub fn to_u8(&self) -> (r: u8)
        ensures
            r == 1,
    {
        match self {
            Self::V1 => 1,
        }
    }
}

} // verus!
