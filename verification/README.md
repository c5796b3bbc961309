# termbridge

The decision logic of a small browser-terminal / SSH relay system, verified
with Verus.

- `src/text.rs` — whitespace-separated words of a command line, joining,
  string equality, and the laws that splitting and joining undo each other.
- `src/port.rs` — port numbers parsed as `u16::from_str` does, decimal
  rendering, and the round trip between the two.
- `src/terminal.rs` — what each terminal command asks for (`interpret`,
  `respond`), completion, the websocket address, and the step function of the
  loop that watches the websocket.
- `src/ssh.rs` — collecting an SSH command's output and exit status.
- `src/bridge.rs` — the step function of the websocket-to-SSH relay.
- `app/` — the relay server program and the two browser terminals, which
  perform the I/O and follow the library's decisions.
