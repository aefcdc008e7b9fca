# passkey_auth

A WebAuthn relying party, narrowed to the passkey ceremonies, written and
verified in Verus.

- `src/` is the library. The contracts state what is returned, errors with their
  texts included. Functions that read the clock or draw a challenge state what
  holds whatever came of it; each leaves the rest to one that takes the time and
  the challenge as arguments (`..._at`, `..._with`). `src/laws.rs` holds what follows
  for whole ceremonies: when a registration or an authentication succeeds, that
  a replayed assertion does not, what strict and lenient decoding have in common.
- `tests/` runs it, with simulated authenticators.
- `app/` turns the wire and storage types into JSON.

Base64, CBOR, JSON, X.509, URLs, SHA-256, ECDSA and Ed25519 come from other
crates. What the contracts take for granted of them stands at the functions
marked `external_body` and at the `assume_specification` items, each with the
name of the function that it speaks of.

Certificate chains of attestation statements are not validated to a root.
