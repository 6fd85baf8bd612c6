# rust_core

The decision core of a personal assistant: it plans how each user turn is
answered (a local model, a cloud model, or a tool run directly), compiles the
prompts for each stage, cleans up what the models return, keeps a working
memory of conversation threads across turns, and presents tool results.

The library under `src/` is written in Verus. Every function carries a
contract over a mathematical model of its data (`Seq`, `Map`, views of each
record) and is proved to meet it; laws that relate several functions stand as
public proof functions beside them.

## Layout

- `src/text.rs` — character-level text primitives (trimming, splitting,
  searching, compacting) that the rest is built on.
- `src/conversation.rs` — transcript records, context levels, configuration
  defaults and display labels.
- `src/hgie.rs`, `src/hgie/flow.rs`, `src/hgie/turn_step.rs` — turn planning
  (routes, beats, context policies, continuity), grounded facts taken from the
  user's words, the decisions made while a turn runs (fallbacks, traces,
  delivery), and the turn and cloud beat as step functions that the host runs.
- `src/prompt_translator.rs` — prompt configuration per mode, prompt
  compilation for the local and cloud models, and cleanup of model output.
- `src/memory/` — thread keys, entity anchors, open loops and constraints
  (`recall.rs`), working-memory refresh and pruning (`working.rs`), usage
  statistics and diagnostics (`observability.rs`), feature hashing
  (`vector.rs`).
- `src/model.rs`, `src/model_runtime.rs`, `src/model_runtime/` — provider
  streaming, token budgets for the local model, and the cloud-profile registry.
- `src/tools.rs`, `src/tools/` — tool intent detection, the Hue lights, the
  tool catalog and the cards that present results.
- `src/clock.rs` — RFC 3339 instants and the ambient cooldown.
- `src/logging.rs` — the records written to the logs.
- `tests/` — tests of the library on concrete values.
- `app/` — ordinary Rust around the library: configuration files, JSON
  decoding of model output and tool state, the provider's JSON, the scoring
  that works on floating-point similarity, and the loop that runs the step
  functions.
