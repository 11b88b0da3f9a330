# berth

The verified core of the berth MCP runtime.

- `src/resource_limits.rs`: the `berth.max-memory` and `berth.max-file-descriptors`
  settings — validation, parsing (`512M`, `1G`, ...) and the limits to set on a
  server process.
- `src/global_config.rs`: the global configuration sections and their defaults.
- `src/proxy_filter.rs`: the exec-permission filter of proxy sessions, which
  forwards client messages or denies `tools/call` requests for tools that are
  not allowed.
- `src/health_check.rs`: the MCP `initialize` handshake reply and the health
  report of a probe.
- `src/json.rs`, `src/text.rs`: JSON values and lookups, trimming and number
  parsing.
- `app/`: file, process and terminal handling around the library (loading
  `~/.berth/berth.toml`, probing a server, relaying a proxy session, applying
  `setrlimit`).
