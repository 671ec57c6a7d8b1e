# hyperlight_sandbox

The verified core of a host that runs Python inside Wasm sandboxes and
serves the guest's WASI calls from memory.

- `src/` is the library, proved with Verus: the virtual filesystem behind
  the `/input` and `/output` preopens, byte buffers and streams, pollables,
  the HTTP store with its header fields, requests, options and futures,
  header maps over `reqwest`'s `HeaderMap`, the checks made before a request
  is sent, host-function signatures, the guest's memory decisions, the tool
  registry's dispatch, and the sandbox's size configuration.
- `tests/` runs the library on concrete values.
- `app/` is the plain Rust around it: sending HTTP requests, reading
  clocks, decoding execution results as JSON, and the tool registry over
  JSON values.
