# kitchen_table

The decisions behind Kitchen Table, a daemon that turns folders into web apps
for the people you choose, written as a Verus library: every function in
`src/` carries a contract, and Verus proves it.

- `src/` is the library. Who may open an app (`access`), invite links and
  sessions (`invite`, `session`, `device`), slugs, manifests and rescans
  (`slug`, `registry`, `daemon`), the live library and its hostnames
  (`library`, `mdns`), the public labels owners give them (`label`), the relay's reconnect schedule and control stream
  (`backoff`, `relay`), the account link (`account`), what each socket
  request comes to before the store is touched (`request`, `rpc`, `socket`),
  and what the command line prints (`cli`, `table`, `qr`). The store, the
  HTTP server and the relay's tunnel framing are not part of this crate.
  Calls into `getrandom`, `base64ct`, `ed25519-dalek` and `qrcode` go through
  a few small functions whose contracts state what those crates document.
- `app/` is the `kt` command line and the daemon's disk and environment side:
  ordinary Rust that reads, writes and talks to the socket, and hands the
  library plain values.
- `tests/` runs the library on concrete values.
