# minitrace

A small tracer for PHP requests: each request gets a random trace id (sent
back in an `X-MiniTrace-Id` header), a root span for the URL, and one span
per traced call (PDO methods, `curl_exec`) or per error and uncaught
exception. At the end of the request every span is appended to the trace
log as one JSON object per line.

- `src/` is the verified library (Verus): payloads, spans, the per-request
  context, the JSON lines, the choice and the contents of the hooks, and the
  request start and end.
- `app/` is the PHP extension around it: module registration, the engine's
  observer callbacks, reading PHP values, and writing the log file.
- `tests/` runs the library on concrete values.
