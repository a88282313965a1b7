# shard

A concurrent HTTP range download engine whose decision logic is proved
correct with Verus.

- `src/` is the verified library: chunk planning, the chunk dispatcher,
  retry backoff, the resume sidecar and its judgement, destination naming
  and file-type routing, progress tracking and the display state machines,
  the control-socket and daemon protocols, native-messaging framing, the
  configuration rules, the registry and calendar arithmetic. Every public
  function states its result in `ensures`; the library-wide laws are public
  `lemma_*` proof functions.
- `app/` is the `shard` program around it: command line, HTTP, files,
  SQLite history, sockets, timers and the floating-point parts of the
  progress lines.
- `tests/` run the library on concrete values.
