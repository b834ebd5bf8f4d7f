//! The version of the ticket format.

use vstd::prelude::*;

use crate::signature::Signature;

verus! {

/// The version of the ticket format.
///
/// It's either:
/// - 0x2100 for Version 2.0
/// - 0x2101 for Version 2.1
/// - 0x3100 for Version 3.0
/// - 0x4100 for Version 4.0
#[derive(Debug, Clone, Copy, PartialEq, Eq, Structural)]
pub enum Version {
    /// Version 2.0
    V2,
    /// Version 2.1
    V2_1,
    /// Version 3.0
    V3,
    /// Version 4.0
    V4,
}

impl Version {
    /// The 16-bit code of the version, as written at the start of a ticket.
    pub open spec fn spec_code(self) -> u16 {
        match self {
            Version::V2 => 0x2100,
            Version::V2_1 => 0x2101,
            Version::V3 => 0x3100,
            Version::V4 => 0x4100,
        }
    }

    /// The version whose code is `version`, if any.
    pub open spec fn spec_from_u16(version: u16) -> Option<Version> {
        if version == 0x2100 {
            Some(Version::V2)
        } else if version == 0x2101 {
            Some(Version::V2_1)
        } else if version == 0x3100 {
            Some(Version::V3)
        } else if version == 0x4100 {
            Some(Version::V4)
        } else {
            None
        }
    }

    /// The expected length of a ticket of this version.
    pub open spec fn spec_ticket_length(self) -> nat {
        match self {
            Version::V2 | Version::V2_1 => 212,
            Version::V3 => 220,
            Version::V4 => 320,
        }
    }

    /// The length of a console signature for this version.
    pub open spec fn spec_console_signature_length(self) -> nat {
        match self {
            Version::V2 | Version::V2_1 | Version::V3 => 16,
            Version::V4 => 32,
        }
    }

    /// The 16-bit code of the version.
    pub fn code(self) -> (r: u16)
        ensures
            r == self.spec_code(),
    {
        match self {
            Version::V2 => 0x2100,
            Version::V2_1 => 0x2101,
            Version::V3 => 0x3100,
            Version::V4 => 0x4100,
        }
    }

    /// Get the version from a u16.
    pub fn from_u16(version: u16) -> (r: Option<Self>)
        ensures
            r == Self::spec_from_u16(version),
            r matches Some(v) ==> v.spec_code() == version,
    {
        match version {
            0x2100 => Some(Version::V2),
            0x2101 => Some(Version::V2_1),
            0x3100 => Some(Version::V3),
            0x4100 => Some(Version::V4),
            _ => None,
        }
    }

    /// Get the expected length of the ticket for this version.
    pub fn ticket_length(self) -> (r: usize)
        ensures
            r == self.spec_ticket_length(),
    {
        match self {
            Version::V2 | Version::V2_1 => 212,
            Version::V3 => 220,
            Version::V4 => 320,
        }
    }

    /// Length of the signature. Only console signatures have a known length.
    pub fn signature_length(self, signature: &Signature) -> (r: usize)
        requires
            signature is Console,
        ensures
            r == self.spec_console_signature_length(),
    {
        match signature {
            // PS3 uses SHA-1 for V2 to V3, and SHA-256 for V4.
            Signature::Console(_) => match self {
                Version::V2 | Version::V2_1 | Version::V3 => 16,
                Version::V4 => 32,
            },
            Signature::Emulator(_) => 0,
        }
    }
}

} // verus!
