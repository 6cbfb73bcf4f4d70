# hyerix-natsfixture

An ephemeral NATS + JetStream server fixture for tests: a YAML manifest
describes streams, consumers, KV buckets and object stores; the fixture boots a
`nats-server`, applies the manifest, prints `NATS_URL=...` and
`NATS_FIXTURE_READY`, and cleans up on exit.

## Layout

- `src/` — the library, verified with Verus:
  - `manifest/` — the manifest model, the defaults of absent fields,
    structural validation (`validate`), the ordered steps of applying a
    manifest (`apply::apply_plan`), and the key-ordered map of seed headers and
    KV entries (`string_map::StringMap`);
  - `server/` — the nats-server configuration file (`render_server_config`),
    listen address and storage choice, shutdown steps, binary resolution and
    version parsing (`bundled`), the readiness probe decision (`healthz`), and
    the order of a server start as a step function from stage and event to
    the next stage and action (`launch`);
  - `url.rs` — building, announcing and splitting the `nats://host:port` URL;
  - `cli.rs` — the command line and the decisions taken from it (server
    options, spawn arguments, PID files, connection auth, the explicit-port
    check, boot exit codes);
  - `exec.rs` — the wrapped command of `exec` mode and its exit code;
  - `text.rs` — whitespace, trimming, decimal rendering and integer parsing.
- `app/` — the program: command-line parsing (clap), YAML parsing (serde),
  process and network I/O (tokio, async-nats), performing what the library
  decides.
- `tests/` — tests of the library.
