# unspace_dock

The deployment and service-management core of the Unspace drone dock agent,
written in Verus: every function in `src/` carries a contract that Verus proves.

- `src/config.rs` — the versioned configuration: defaults, validation,
  `config set` editing, redaction, and the checks made on a loaded file.
- `src/service.rs` — the hardened systemd unit, the install and uninstall
  plans, the PID file and the decision to send SIGHUP to a running service.
- `src/watch.rs` — the decisions of the long-running `watch` loop (shutdown,
  reload, heartbeat schedule).
- `src/health.rs` — heartbeat freshness and the API health endpoint.
- `src/text.rs`, `src/numbers.rs` — trimming, case folding, splitting, and
  decimal printing and parsing, each against a specification.
- `app/main.rs` — the command line: argument parsing, files, processes,
  signals, logging and HTTP, which carry out what the library decides.
