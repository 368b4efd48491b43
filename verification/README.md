# apus_core

The verified core of the APUS peer-to-peer update and mesh-chat engine.

- `src/` is the library, verified with Verus: block integrity checks
  (SHA-256 through the `sha2` crate), chunk framing, peer ordering by
  round-trip time (a stable sort), the work-mode triggers, compression
  choice, the update manifest, hardware admission, the mesh room, and the
  dashboard's chat logic (nickname normalization and registry, message
  merging).
- `tests/` runs the library on concrete values.
- `app/` is the program around it: system probes (`sysinfo`), TCP transfer
  (`tokio`), the web dashboard (`axum`), the hub sync (`reqwest`), JSON
  (`serde`), and the C interface.
