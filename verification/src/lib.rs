//! A ``PlayStation Network`` ticket for authenticating requests.
//!
//! The ticket is cryptographically signed and contains the user's
//! username, alongside other data, which we can use to identify them.
//!
//! Parsing ([`Ticket::from_bytes`]) reads the fields of a version 2, 2.1,
//! 3 or 4 ticket, checks its dates and checks its signature against the
//! public keys it is given; serializing ([`Ticket::to_bytes`]) writes a
//! ticket with an RPCN signature section, signed when a key is given.

pub mod bytes;
pub mod crypto;
pub mod dates;
pub mod laws;
pub mod signature;
pub mod text;
pub mod ticket;
pub mod ticket_data;
pub mod version;

pub use crate::crypto::RpcnSigningKey;
pub use crate::signature::Signature;
pub use crate::ticket::{PublicKeys, Ticket, TicketDecodeError, DEFAULT_DOMAIN, DEFAULT_REGION};
pub use crate::ticket_data::TicketData;
pub use crate::version::Version;
