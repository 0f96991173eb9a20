//! Protocol version identifier.
use vstd::prelude::*;

use crate::error::ProtocolError;

verus! {

/// Protocol version identifier.
#[derive(Debug, Clone, Copy, PartialEq, Eq, PartialOrd, Ord, Hash)]
pub enum ProtocolVersion {
    V1,
}

/// The wire byte of a protocol version.
pub open spec fn version_code(v: ProtocolVersion) -> u8 {
    match v {
        ProtocolVersion::V1 => 1,
    }
}

impl ProtocolVersion {
    pub const CURRENT: ProtocolVersion = ProtocolVersion::V1;

    /// The version whose wire byte is `v`; only 1 is known.
    pub fn from_u8(v: u8) -> (r: Result<Self, ProtocolError>)
        ensures
            v == 1 ==> r == Ok::<ProtocolVersion, ProtocolError>(ProtocolVersion::V1),
            v != 1 ==> r == Err::<ProtocolVersion, ProtocolError>(
                ProtocolError::UnsupportedVersion { expected: 1, actual: v },
            ),
    {
        match v {
            1 => Ok(ProtocolVersion::V1),
            other => Err(ProtocolError::UnsupportedVersion { expected: 1, actual: other }),
        }
    }

    /// The wire byte of this version.
    pub fn to_u8(self) -> (r: u8)
        ensures
            r == version_code(self),
    {
        match self {
            ProtocolVersion::V1 => 1,
        }
    }
}

impl Default for ProtocolVersion {
    fn default() -> (r: Self)
        ensures
            r == ProtocolVersion::V1,
    {
        ProtocolVersion::V1
    }
}

/// Reading back the wire byte of a version gives the version.
pub proof fn lemma_version_roundtrip(v: ProtocolVersion)
    ensures
        version_code(v) == 1,
        v == ProtocolVersion::V1,
{
}

} // verus!
