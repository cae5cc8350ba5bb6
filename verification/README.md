# xiaoo_shared

The shared core of the xiaoo gateway and its sandboxed backends, written in
Verus. Every function under `src/` carries a contract; Verus proves each
one except those of the trusted items described below.

- Sessions: the single-writer lease table (`session_lease`, `lease_laws`),
  the per-session actor's turn queue and lifecycle (`session_actor`), turn
  assembly decisions (`turn_flow`, `prompt_utils`, `llm_assembly`) and the
  errors callers see (`session_service`, `pending_interaction`).
- Backends: the manager's table of live backends and their lineage
  (`backend_table`), its decisions (`manager_rules`, `manager_flow` for the
  steps around a provider's build, `backend_index`, `backend_metadata`,
  `eviction`), the canonical form configurations are hashed by
  (`json_canonical`), the shared sandbox counter and registry
  files' data (`sandbox_counter`, `backend_registry`, `counter_laws`), and
  path normalization (`backend_path`, `path_laws`).
- E2B sandboxes: provider settings and the create request
  (`e2b_provider`, `e2b_create_body`), backend state and URLs
  (`e2b_backend`), process execution and its response stream (`e2b_exec`,
  `e2b_stream`, `stream_laws`), file operations (`e2b_files`), failures
  (`e2b_error`) and the bootstrap archive's limits, paths, digest and
  binding (`e2b_bootstrap`, `bootstrap_paths`, `sha256_digest`).
- Memory automation: the ingest queue and its file layout
  (`memory_automation`, `queue_file`) and recalled-memory rendering
  (`memory_render`, `memory_laws`).

Calls into outside crates (base64, pbkdf2, sha2, rand, uuid, chrono) and
into a few parts of std that vstd does not specify (the clock, UTF-8 lossy
decoding, `String::push`, `PathBuf`, `DefaultHasher`) sit behind trusted
items: small `external_body` wrappers, a declared outside type, a struct
holding sha2's hasher (whose type Verus cannot declare), and uninterpreted
names for results that are functions of their arguments. Verus believes their
contracts without proof; each says only what the outside code's source or
documentation shows, and everything built on them is proved. `app/` holds the I/O around the library: files and locks, JSON,
the archive writer, the environment. `tests/` exercises the library.
