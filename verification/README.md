# locagate

LocaGate exposes local web servers to the internet through a relay. This
crate is its logic, written and proved with Verus; `app/` is the desktop
application around it (the Tauri backend and the Dioxus interface), which
only does I/O and rendering.

`src/`:

- `text.rs`: character-level string operations (search, trim, replace,
  number formatting) with their specifications.
- `category.rs`: classification of relayed requests ("fetch", "document",
  "css_js", "image", "other").
- `config.rs`: the configuration (tunnels, relay address, token, log limit).
- `logs.rs`: request log entries, the bounded request log, the details cache.
- `codec.rs`: base64 through the `base64` crate.
- `tunnel.rs`: relay addresses, the connection state machine with its
  back-off, forwarding a request to the local server, what is logged.
- `manager.rs`: saving, deleting, starting and stopping tunnels.
- `ui.rs`, `form.rs`, `render.rs`: what the interface shows, the tunnel form,
  body previews and QR codes.

`tests/` runs the library on concrete values.
