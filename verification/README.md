# firebase_auth

Verification of Firebase ID tokens and session cookies against the signing
keys that Google publishes, written in Verus.

- `src/` is the verified library: reading `Cache-Control: max-age`, turning
  published keys into a key set, selecting the key for a token, deciding among
  the verifiers of a project, and applying the outcome of a key refresh.
  Calls into `jsonwebtoken` stand behind small trusted wrappers in
  `src/keys.rs` and `src/algorithm.rs`.
- `app/` is the asynchronous front: HTTP fetches with `reqwest`, JSON bodies
  with `serde`, background refresh with `tokio`, and decoding of claims into
  the caller's type.
- `tests/` exercises the library on concrete keys, headers and tokens.
