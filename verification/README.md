# ftpoq

An FTP server that also speaks FTP over QUIC. The protocol logic is written in
Verus and proved against its contracts; the networking around it is ordinary
asynchronous Rust.

## Layout

- `src/` — the verified library.
  - `text` — characters, decimal numbers, white space and UTF-8 widths.
  - `reply_code`, `reply` — reply codes, replies, their wire text and the
    parser that reads that text back.
  - `commands` — the command names and the parser of command lines.
  - `permission` — user permissions and permission lists such as `r;w;l`.
  - `auth` — users, their views, password checks, the steps of a login
    against the SQLite user store, and the order in which data sources are
    asked.
  - `session` — the state of one client's session.
  - `shared`, `handlers` — what each command checks, changes and replies.
  - `transfer` — the steps of `RETR`, `STOR`, `LIST`, `NLST` and `MLSD` as
    state machines: each step says what to do next, the caller does the I/O
    and hands the outcome back.
  - `connection` — decisions of the connection loop and of data channels.
- `app/` — the server around the library: configuration, TLS, the SQLite
  user store, TCP and QUIC listeners, data channels and the command loop.
- `tests/` — tests of the library.

The outside crates the library calls (`unicode-segmentation` and `argon2`)
are reached through small trusted wrappers whose contracts are stated
next to them.
