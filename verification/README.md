# rhermes

The core of the RHermes AI agent as a Verus-verified library, with a thin
layer of ordinary Rust for files, databases and time.

## Layout

- `src/` — the verified library. Functions state their behaviour in
  `requires`/`ensures` over spec functions and views, and Verus proves it;
  memory providers state theirs as relations on the `MemoryProvider` trait,
  and `MemoryManager::sync`, which only hands a memory to the providers,
  states nothing.
  - `context`, `prefix_cache`: the three-part prompt context and its frozen prefix.
  - `repair`, `flatten`, `guardrails`: repairing, flattening and checking the
    model's tool calls.
  - `cost`, `api`, `stream`: model tiers, request retries, and decoding the
    streamed answer.
  - `skill`, `skill_file`, `curator`, `task`: skills, their files, their
    lifecycle and their refinement.
  - `memory`, `memory_manager`: memory entries, profiles and providers.
  - `session`, `router`, `agent_loop`: sessions, message routing, slash and
    teacher commands, and the rounds of a turn.
  - `channel`, `telegram`, `qq`, `wechat`, `wecom`: messaging channels: message
    splitting, formatting and the decisions of their polling loops.
  - `tools`: the built-in tools offered to the model.
  - `config`, `template`, `path`, `debug`, `text`, `json`: settings, the
    annotated configuration template and the merging of saved settings into
    it, installation paths, the debug ring, verified text operations and the
    trusted `serde_json` wrappers (JSON is handled as compact text).
- `tests/` — tests run against the compiled library.
- `app/` — I/O around the library: `config.toml`/`.env`, the SQLite memory
  store, skill files on disk, the curator's file work, the debug report,
  compression archives, the request retry loop and message dispatch.

Laws that relate several functions (round trips, bounds, monotonicity) are
public proof functions named `lemma_*` beside the functions they speak of.
