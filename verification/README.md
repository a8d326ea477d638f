# agentir_core

The verified core of AgentIR, a compiler workspace for numeric programs kept
as typed graphs rather than source text. Every operation in `src/` is stated
with a `requires`/`ensures` contract and proved with Verus.

- `src/` — the library: identifiers and allocators, SpecIR and ImplIR graphs,
  shape facts (`constraints`), identity lowering, dependency search, constant
  folding, pruning and value substitution, MemoryIR (fresh bufferization,
  analyses, verification, continuations, and the memory-plan store's plan
  creation, atomic transactions, seals, forks and revision checks), BackendIR
  program checks, backend-plan revision lookup, summaries, full checks and
  store-wide revalidation, WGSL artifact package verification and
  artifact-store checks, candidate-forest reads and proof-chain checks,
  equality-revision summaries, CPU artifact checks, publication of CPU
  packages, CPU runtime measurements and hardware measurement records,
  revisions, persistence migrations, and content hashing. Laws of the library
  are public proof functions named `law_*`.
- `app/` — host-side code that Verus does not see: binary32 arithmetic,
  conversion between `serde_json` values and the library's `JsonLit`, wire
  forms of library types, and content hashing of serialized wire values.
- `tests/` — executable tests of the library.

Content identities are digests of canonical encodings. The library computes
each digest and checks it against the stored hash; the canonical bytes
themselves come from the caller (as a byte slice, or as an encoding function
handed to the memory-plan, backend, CPU package or measurement store).
