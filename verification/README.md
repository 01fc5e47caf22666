# being32

The discrete core of the Being32 homeostatic agent, verified with Verus.

- `src/hex32.rs` — the 128-byte register bank (`Hex32`): 32 registers of 32 bits,
  its little-endian binary image, and the proofs that the image loses nothing.
- `src/attestation.rs` — the attestation of a bank (its image as 256 lowercase
  hexadecimal digits) and rehydration from such a text, with the proof that
  rehydrating from an attestation restores the bank exactly.
- `src/eps.rs` — the ritual gate: the refractory clock and the order in which
  exhaustion, settlement and refractoriness are judged, with the proof that a
  healthy agent exerts itself once per refractory period.
- `app/` — the real-valued channels around that core (ISE vector, self-model,
  active inference, relational state, valence coupling), in ordinary Rust.
- `tests/` — executable tests of the library.
