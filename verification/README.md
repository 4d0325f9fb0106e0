# anyplug

A USB/IP bridge: a server exports local USB devices over TCP, a client
imports them into a virtual host controller. The protocol core is a Verus
library whose functions carry `requires`/`ensures` contracts proved by
Verus; the network, USB and operating-system plumbing around it is
ordinary Rust.

## Layout

- `src/` — the verified library.
  - `codec`, `protocol`, `urb`, `reply`, `descriptor`: the wire formats
    (headers, device entries, URB commands and replies, USB descriptors),
    each with its encoder, decoder and round-trip laws.
  - `error`: error kinds, categories, correlation ids and context.
  - `crypto`, `framing`: X25519/HKDF/AES-256-GCM through `ring`, and the
    length-prefixed frames of the encrypted stream.
  - `usb`, `urb_executor`, `batcher`, `pool`: device management, URB
    execution, reply batching and the buffer pool of the server.
  - `server`, `api`, `controller`, `cli`, `windows_usb`: the server's
    request handling, REST API rules, lifecycle and argument parsing.
  - `client`, `reconnect`, `daemon`, `vhci`: the client's handshake
    checks, its reconnect state machine, the daemon's connection table and
    control commands, and the virtual host controller's commands.
- `tests/` — tests of the library, run against the real outside crates.
- `app/` — the server program: sockets, libusb, mDNS, HTTP, metrics, the
  client and daemon plumbing, and the floating-point parts (token bucket,
  backoff jitter, rate tracking).
