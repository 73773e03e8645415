# groot

The write path of a multi-version graph store behind its JNA entry points.

- `src/op.rs`: the operation types of a write batch and their classes
  (marker, vertex/edge write, schema operation).
- `src/batch.rs`: `BatchWriter`, the machine that decides which operation of
  a batch goes to the graph next and how the batch ends, with the proofs that
  it ends with the first refusal or with the schema flag, and hands over
  exactly the non-marker operations before the first refusal, in order.
- `src/response.rs`: the answers returned to the JVM.
- `src/config.rs`: the configuration a store is opened with.
- `app/`: the `extern "C"` entry points, the protobuf decoding and the graph
  calls, which belong to `groot_store`.
