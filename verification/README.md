# ircx_sspi

Security support providers of the MSN Chat controls (GateKeeper, Passport, NTLM and
the chained GateKeeperPassport and NTLMPassport forms), the IRCX `AUTH` line protocol
that carries their tokens, the routing decisions behind the SSPI exports, and the
encrypted operator credential vault, verified with Verus.

## Layout

- `src/` — the verified library. Each provider is a state machine whose steps are
  stated exactly (`client_step` / `server_step` spec functions) over a model of its
  sessions; the wire format (`wire.rs`), the vault (`vault.rs`) and the export
  decisions (`dll.rs`) are functions with exact contracts. Calls into outside crates
  (HMAC-MD5, MD4, AES-256-GCM, hex, the OS random generator, the `sspi` NTLM engine,
  zeroize) sit behind small trusted wrappers whose contracts say what those crates
  document.
- `tests/` — scenario tests run against the compiled library.
- `app/` — the programs around the library: the IRCX test server and client, the
  `add-user` command, the vault file I/O with its JSON records, and the C ABI
  exports working on raw pointers.
