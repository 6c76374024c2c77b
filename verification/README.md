# pcw_backend

The backend of PCW: it keeps proxy-core configs on disk, remembers which core
each config runs on, and starts, stops and restarts one core process per
config, answering gRPC requests over a Unix socket.

- `src/` is the library, verified with Verus: path handling (`paths`), an
  ordered string map (`str_map`), string helpers (`text`), the configuration
  and its read-once store (`config`), the configs manager and its metadata
  (`configs_manager`, `flat_configs`), the process bookkeeping and start
  commands (`subprocesses_control`, `subprocess_control`), and what the
  services decide (`server`).
- `app/` is the program around it: file and process I/O, logging, the socket
  and the server's lifetime.
- `tests/` exercises the library on concrete values.
