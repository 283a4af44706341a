# rt_trace

A span tracer for a runtime, verified with Verus.

- `src/` is the verified library:
  - `lib.rs`: the tracer switches (`TraceState`, `start`, `stop`, `enabled`) and span creation;
  - `span.rs`: span types and records, their clock readings, and what a span does when it ends;
  - `span_queue.rs`: per-thread queues that hand out full batches, and the store of queues;
  - `consumer.rs`: what the consumer thread hands to a backend each round;
  - `backend/perfetto.rs`: spans to Perfetto trace packets;
  - `backend/perfetto_protos.rs`: the trace messages and their mathematical views;
  - `backend/wire.rs`: the protobuf wire form of the messages;
  - `fastrace_perfetto.rs`: a Perfetto reporter for `fastrace` spans;
  - `platform.rs`: the calls into `fastant` and `thread-id`.
- `app/` holds the process-wide plumbing that Verus does not check: global
  state, channels, the consumer thread, and the reporters that write files.
- `tests/` exercises the library on concrete values.
