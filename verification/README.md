# abir_guard

Verified building blocks of Abir-Guard, a post-quantum key vault for AI
agents, written in Verus.

- `src/` — the library; every function carries a contract proved by Verus.
  - `audit` — hash-chained audit log and compliance rules.
  - `blockchain` — key anchors, decentralized PKI, simulated contract back-end.
  - `advanced_secret_sharing` — share commitments, HMAC-bound shares,
    proactive refresh and re-sharing with transcript proofs.
  - `confidential_computing` — SGX and TrustZone enclave models, quote and
    report verification, sealed storage, MPC sessions, attestation service.
  - `interop` — JWK records for PQC keys and DID Core documents.
  - `performance` — bounded derived-key cache, batch sign/verify.
  - `qkd` — integer core of the BB84 simulation.
  - `crypto` — the trusted boundary to `sha2`, `hmac`, `base64` and the clock.
- `tests/` — unit tests run against the compiled library.
- `app/` — JSON encodings (serde), asynchronous front-ends, the
  floating-point layers of QKD and compliance, and SGX SDK entry points.
