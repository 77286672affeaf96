# pipecat_rs

Frame pipelines with verified routing decisions.

- `src/` is verified with Verus:
  - `frame`, `frame_processor`, `pipeline::pipeline` — the source → processors → sink
    pipeline: the counting `DefaultFrameProcessor`, the `Forwarder` that forwards each
    frame once, the plans of each step of a round (`plan_from_source`, `plan_from_sink`,
    `plan_from_processor`) that `app/` carries out on user processors, proved in
    `pipeline::round_plan` to compose into one round, and a `Pipeline`
    whose `run_once` is proved to perform exactly one round (`tick`), with laws on
    direction and on a second round forwarding nothing.
  - `channel_pipeline` — frames, the echo decision, the router's `route` and the
    priority order in which a component drains its inboxes.
  - `transport` — websocket transports, endpoints, the port a pipeline listens on,
    the frames kept per port and the observers that read them.
  - `observer`, `processors`, `pipeline`, `pipecat_rs_locked` — observed input, echo and
    output processors over the rich frame types.
  - `spec` — the scenario DSL: durations and the validator.
- `app/` runs the same decisions in tasks: sockets, channels, timers and files.
- `tests/` exercises the library on concrete values.
