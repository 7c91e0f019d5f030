# myki

The verified core of the Myki password manager.

- `src/` is the library, verified with Verus: TOTP codes (RFC 4226/6238),
  Argon2id key derivation, AES-256-GCM records and their text form, the
  encrypted vault's record sealing, canary and search, the browser
  extension's field encryption, unlock check and password generator, the
  C interface's string-level operations, the native host's framing and
  command parsing, and the signaling server's routing and peer registry.
  Calls into outside crates (hashing, HMAC, Argon2, AES-GCM, Base32/Base64,
  URL parsing, randomness, the clock) sit behind small trusted wrappers whose
  contracts name or describe what those crates return.
- `tests/` runs the library against known vectors and round trips.
- `app/` is the unverified shell: the C ABI, SQLite storage, the command
  handlers of the extension and desktop application, the native-messaging
  loop, the WebSocket server and the command line client.
