# psn_ticket

A verified library for PlayStation Network tickets: it parses a ticket of
version 2, 2.1, 3 or 4 from bytes, checks its dates, verifies its signature
(RPCN: P-224 and SHA-224; console: P-192 and SHA-1 below version 4, P-256
and SHA-256 for version 4), and serializes a ticket with an RPCN signature
section, signed when a key is given.

RPCN signatures are made and verified with ECDSA over NIST P-224
(`p224::NistP224`). RPCN itself uses the Koblitz curve secp224k1, which the
`p224` crate does not provide: a real RPCN public key does not load here, so
real RPCN tickets are refused with "Failed to load RPCN public key".

- `src/ticket.rs`: the ticket, parsing (`from_bytes_at`, `from_bytes`,
  `from_base64`) and serializing (`to_bytes_with_signature`, `to_bytes`,
  `to_base64`), with the byte layouts as spec functions.
- `src/ticket_data.rs`: the typed items (`TicketData`) and their encoding.
- `src/version.rs`, `src/signature.rs`: format versions and signature sections.
- `src/dates.rs`: the date checks, and the clock.
- `src/text.rs`: NUL-padded text fields.
- `src/bytes.rs`: big-endian integers and fixed-width fields.
- `src/crypto.rs`: the calls into `ecdsa`, `p192`, `p224`, `p256`, `sha1`, `sha2` and
  `base64`, with the contracts that the proofs rely on.
- `src/laws.rs`: properties across functions, among them that parsing a
  serialized ticket gives its fields back.
- `app/lib.rs`: reading the key files and the serde `Deserialize` impl.
