# bench_core

The decision logic of a model benchmarker, verified with Verus.

- `src/track.rs`: the track this tree serves, the platform a track id names, and the fences
  that refuse a foreign track or a retired paired flow.
- `src/contract.rs`: the `--contract` track fixture, the parse-time certification of everything
  it declares, the contract-first resolvers of each group, the sources a run seals, and the
  arm gate; with the properties that hold of every fixture.
- `src/number.rs`: a fixture's real values, held as binary64 bit patterns and decimal text.
- `src/digest.rs`: lower-case hex, the one-shot and streamed sha256 calls, the per-file digest
  memo and the sidecar line format; `src/sidecar_proofs.rs` proves the format reads back what
  it writes.
- `src/pool.rs`: assembling the parallel file hash's answer from its workers' reports.
- `src/score.rs`: the local-phase record of a sealed score.
- `src/text.rs`: decimal rendering, Unicode whitespace trimming, quoting.

`app/` holds what Verus does not check: file and environment I/O (opening a file and reading
its chunks, the page-cache hints), threads, serde on the library's types, and the
floating-point score payload.
