# aegis

Plugin-native behavioural threat modelling: endpoint agents send telemetry to a
server over TLS, central processors score it, and operators read the findings.

- `src/` is the library. Its functions carry contracts that Verus proves; what it
  believes of outside crates (redb, postcard, serde_json, sha2, ed25519-dalek, uuid,
  base64, hex, rand, mime_guess) stands in small wrappers with doc comments.
- `tests/` runs the library with those crates linked.
- `app/` is the programs around it: sockets, TLS, files, HTTP, the plugin host's
  tasks and the command lines.

Where to start in `src/`:

| modules | what they hold |
|---|---|
| `event`, `plugin`, `config`, `example` | events, plugin metadata and subscriptions, host configuration |
| `bus`, `host`, `loader` | routing, plugin resolution, checks on dynamic plugins |
| `proto`, `pin`, `tls` | framing, certificate pinning, the session proof |
| `kv`, `rows`, `keys`, `store`, `store_laws` | tables, rows, keys, the store and its laws |
| `enroll`, `dedup`, `ingest`, `registry` | enrollment, sessions, command routing |
| `sink`, `live`, `api`, `dashboard`, `cert` | persistence of findings, the operator API |
| `cli`, `http`, `agent` | the operator command line and the agent's enrollment |
| `text`, `bytes`, `encoding`, `json`, `ids`, `crypto` | building blocks |
