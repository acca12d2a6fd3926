# glypheris

A semantic compiler: a local language model turns a plain-language intent
into a JSON payload, and the library turns that payload into a Protobuf
packet (`GestureCommand`, `ExecutionPlan` or `InferencePacket`), frames it
for the TCP broadcast bridge, keeps it in a bounded session log, exports it,
and runs execution plans task by task.

Layout:

- `src/` — the verified library (Verus).
  - `wire.rs`: the Protobuf wire format, the calls into `prost::encoding`
    that write it, and the field reader the decoders share.
  - `gesture.rs`, `plan.rs`, `inference.rs`: the three messages, their
    encoders and decoders, and the proofs that decoding an encoded message
    gives it back.
  - `json.rs`, `compile.rs`: the JSON document model and the mapping of a
    payload onto a message, defaults included.
  - `engine.rs`: the prompt and the extraction of the generated JSON.
  - `frame.rs`: the bridge's frame format and client count.
  - `hex.rs`, `session.rs`: the hex text of packets and the session log.
  - `export.rs`: export file names, the xxd-style dump and the hex report.
  - `command.rs`: what the compile and status commands answer.
  - `runtime.rs`: the plan runtime as a state machine.
  - `text.rs`: character-level helpers.
- `tests/` — tests of the library.
- `app/` — the unverified shell: commands, the model process, the bridge's
  sockets, the plan tools and every file read or written.
