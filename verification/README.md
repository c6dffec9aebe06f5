# mlos

The residency logic of MLOS, an operating system whose virtualized
resource is resident model state: weights, KV blocks, activations and the
other ML objects a kernel table holds, with tiers, costs and a next use.

Everything under `src/` is verified with Verus: each public function
states what it returns in its contract, and the laws the library keeps
across calls are public proof functions named `law_*`.

- `abi`, `objtab` -- object ids and what the table knows about an object.
- `text` -- lines, trimming, words and numbers, as the formats read them.
- `trace`, `derive` -- the access-trace format, written and read back, and
  traces built from recorded event streams.
- `sim` -- replaying a trace against a residency policy under a budget.
  A model and a policy state what they answer as spec functions, and the
  outcome of a replay is stated exactly as a fold over the trace.
- `stream`, `workload`, `synth` -- declared streams, a multi-session decode
  workload and the synthetic model it runs over.
- `spaces`, `snapshot` -- region ids, the layout vocabulary, and the
  running layout as a columnar JSON document.
- `virtio`, `trap` -- the decisions of the block and console drivers (the
  feature handshake, whole-sector requests with an unwritten status byte,
  sector-by-sector range reads, console chunks) and the description of a
  CPU exception.
- `shell`, `report` -- the inspector shell's line editing, dispatch and
  what its verbs print.

`app/` holds the loops that drive those decisions, with the register and
device accesses handed in as closures: the shell's input pump, a range
read, a sector read, the feature handshake and bring-up, and console
output a bufferful at a time. `tests/` runs the library on concrete cases.
