//! The signature section of a ticket.

use vstd::prelude::*;

use crate::bytes::copy_range;
use crate::version::Version;

verus! {

/// The signature ID of the ticket.
#[derive(Debug, Clone, PartialEq, Eq)]
pub enum Signature {
    /// ``PlayStation Network``, real PS3
    Console(Vec<u8>),
    /// ``RPCN``, RPCS3 emulator
    Emulator(Vec<u8>),
}

/// The signature ID that marks an emulator (`RPCN`) signature.
pub open spec fn rpcn_id() -> Seq<u8> {
    seq![0x52u8, 0x50u8, 0x43u8, 0x4Eu8]
}

impl Default for Signature {
    fn default() -> (r: Self)
        ensures
            r is Emulator,
            r.spec_signed_data().len() == 0,
    {
        Signature::Emulator(Vec::new())
    }
}

impl Signature {
    /// The data the signature covers.
    pub open spec fn spec_signed_data(self) -> Seq<u8> {
        match self {
            Signature::Console(data) => data@,
            Signature::Emulator(data) => data@,
        }
    }

    /// Get the data.
    pub fn signed_data(&self) -> (r: &[u8])
        ensures
            r@ == self.spec_signed_data(),
    {
        match self {
            Signature::Console(data) => data.as_slice(),
            Signature::Emulator(data) => data.as_slice(),
        }
    }

    /// Length of the data to verify a console signature against: the ticket
    /// length minus the signature and a 16-byte trailer.
    pub fn signed_data_length(&self, ticket_version: Version) -> (r: usize)
        requires
            *self is Console,
        ensures
            r == ticket_version.spec_ticket_length() - (
            ticket_version.spec_console_signature_length() + 16),
    {
        ticket_version.ticket_length() - (ticket_version.signature_length(self) + 16)
    }

    /// Deserialize a signature from a byte slice.
    ///
    /// `RPCN` signatures have the ID `RPCN`.
    /// All other signatures are considered `PSN` signatures.
    pub fn from_bytes(id: [u8; 4], data: &[u8]) -> (r: Self)
        ensures
            id@ == rpcn_id() ==> r is Emulator,
            id@ != rpcn_id() ==> r is Console,
            r.spec_signed_data() == data@,
    {
        let copied = copy_range(data, 0, data.len());
        assert(data@.subrange(0, data@.len() as int) =~= data@);
        if id[0] == 0x52 && id[1] == 0x50 && id[2] == 0x43 && id[3] == 0x4E {
            assert(id@ =~= rpcn_id());
            Signature::Emulator(copied)
        } else {
            assert(id@ != rpcn_id()) by {
                if id@ == rpcn_id() {
                    assert(id@[0] == 0x52 && id@[1] == 0x50 && id@[2] == 0x43 && id@[3] == 0x4E);
                }
            }
            Signature::Console(copied)
        }
    }
}

} // verus!
