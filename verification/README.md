# mpv_client

A verified core for writing mpv plugins against the libmpv client API.

`src/` is the library, verified with Verus:

- `format` — the value formats (`mpv_format`), their codes and names, the
  format each Rust type is exchanged in, and `OsdString`.
- `error` — error codes (`mpv_error`) and how a returned code becomes a
  `Result`.
- `event` — which event a raw `mpv_event` is, the id an event is reported
  under, and the token that grants waiting for events.
- `node` — the node tree (`mpv_node`), its layout in mpv's memory, and the
  conversions both ways, with the law that a written node reads back as
  itself.
- `options` — plugin options from the configuration file and `script-opts`,
  with `script-opts` taking precedence.
- `logging` — the plugin log file's path, record lines, and the last line
  of a previous log.
- `client` — client names and the `show-text` command.
- `assoc`, `text` — string-keyed association lists and character helpers.

`app/` holds what touches libmpv directly (raw pointers, FFI calls, memory
management), the logger and serde glue, and the float-bearing `Node`; it
hands plain values to the library and takes plain values back.
