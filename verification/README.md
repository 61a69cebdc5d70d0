# pied_piper

A peer-to-peer platform for WebAssembly applications: nodes publish and fetch
modules by content identifier, resolve human-readable names, replicate state
with CRDTs, and serve modules and their front ends over an HTTP gateway.

## Layout

- `src/` — the verified library. Every function carries a contract that Verus
  proves:
  - `crdt/` — last-writer-wins maps and observed-remove sets, their merge laws,
    and the operations nodes exchange to stay in step;
  - `gateway/` — request routing and validation, module execution replies,
    WebSocket sessions, static and front-end serving, name resolution;
  - `content/`, `network/` — module discovery, publication records, search
    merging and the decisions the network node takes on DHT and peer answers;
  - `package/` — package manifests, encryption, sealing and building;
  - `wasm/` — resource limits, host functions, module identity, the module
    cache and dependency loading;
  - `config.rs`, `manifest.rs`, `bundle.rs`, `storage.rs`, `deploy.rs`,
    `security/` — configuration, application manifests, bundles, persistent
    storage layout, deployment and the gateway's security checks.
- `tests/` — tests of the library on concrete values.
- `app/` — the command-line program around the library: argument parsing,
  files, serialization formats, and the rate limiter.

Calls into outside crates (hashing, encryption, compression, encodings,
semantic versions, the LRU cache) go through small trusted functions whose
contracts state what those crates document.
