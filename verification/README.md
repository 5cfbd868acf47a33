# pocc

The verified core of the Life++ / PoCC agent stack, written in Verus.

## Layout

- `src/` – the library; every function carries a `requires`/`ensures`
  contract that Verus proves.
  - `vault/` – the agent wallet vault: audit chain, zero-knowledge auth
    proofs, HMAC commitments, Kyber/Dilithium key handling and the signing
    flow with replay protection.
  - `tee/` – measurement chains, attestation reports, sealed storage and
    the enclave context.
  - `provisioner/` – factory provisioning: PUF seed, key derivation, OTP
    fuses, the genesis ceremony and MAC address parsing.
  - `lightning/` – BOLT-11 invoices, HTLC channels, the source router and
    the gateway's fee arithmetic.
  - `collab/` – cognitive transactions, Merkle roots, the sub-task DAG and
    its orchestrator, and the proof-of-cognition prover.
  - `gateway.rs`, `lanes.rs`, `bonds.rs`, `mandates.rs`, `timeline.rs` –
    admission rules of the AP2 gateway, resource lanes of the edge runtime,
    the bond and mandate lifecycles, and the agent timeline.
  - `digest.rs`, `text.rs`, `bytes.rs` – the calls into `sha2`, `hmac`,
    `hex`, `getrandom` and `std` formatting, each behind a small trusted
    wrapper whose contract states what the crate documents.
- `tests/` – executable tests against the compiled library.
- `app/` – the command-line program and everything that is I/O, async,
  serde, or `f64` arithmetic, built on the library.

Public proof functions named `lemma_*` state the laws that span several
operations (a seal unseals, an appended audit chain stays valid, a settled
bond stays settled, HTLC ids count up from zero, …).
