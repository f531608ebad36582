# tdg_rust

The Teleological Developmental Graph (TDG) is a memory graph for AI agents:
observations, hypotheses, teloi and their kin are nodes, typed edges join
them, and engines audit, digest, propagate drive through and summarise the
graph.

## Layout

- `src/` — the library, verified with Verus. Every public function carries a
  contract over mathematical models (`Seq`, `Set`, `Map`, views of the data
  types); the laws that relate several functions stand as public proof
  functions (`lemma_*`). Calls into outside crates (`uuid`, `chrono`,
  `ahash`, `petgraph`) and std functions that vstd does not specify go
  through small trusted wrappers, each documented with what it claims; the
  graph projection is a `petgraph` graph read through such wrappers.
- `app/` — ordinary Rust around the library: SQLite storage (`rusqlite`),
  files (journal, snapshots, anomaly registry), configuration loading
  (`figment`), the LLM providers over HTTP (`reqwest`), output formatting
  (`toon-format`), and the floating-point engines (drive propagation, HRR
  vectors, graph centralities with `rustworkx-core`, Leiden communities,
  text clustering with `linfa`). It hands the library plain values and
  acts on its decisions.
- `tests/` — tests of the library on concrete values.
