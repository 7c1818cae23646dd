# codex_shim

The decision-making core of codex-shim, a local adapter that lets Codex talk
to non-OpenAI or self-hosted models through one `/v1/responses` endpoint,
written in Verus: every function in `src/` carries a `requires`/`ensures`
contract that Verus proves, and the properties that span several calls are
stated as public proof functions named `law_*`.

## Layout

- `src/` — the verified library.
  - `text`, `json`, `toml`, `clock` — strings, the JSON value model, the TOML
    document calls (through `toml_edit`), and clock readings.
  - `config`, `profile`, `setup` — the shim configuration, provider profiles
    and their defaults, and the setup choices.
  - `canonicalizer`, `events`, `native_relay`, `relay`, `stream_policy` — the
    Responses stream canonicalizer (a state machine over upstream events),
    the relay decisions (retries, heartbeats, failures).
  - `validation`, `chat`, `routes` — request validation, the chat message
    model, and the routing and authorization decisions.
  - `store`, `metrics`, `gui` — the response store, runtime counters and
    per-minute token series, and the log buffer.
  - `integration`, `codex_config`, `doctor` — installing the shim into a
    Codex `config.toml`, project trust, and the desktop doctor report.
- `tests/` — tests that run the compiled library with the real outside crates.
- `app/` — the command-line program around the library: argument handling,
  file I/O, and serde copies of the configuration types.

Clock readings, the SHA-256 digest and the TOML parser and renderer are
outside calls; their contracts say what those calls return and nothing more.
