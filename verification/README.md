# blightmud

The core of a terminal MUD client, written in Verus and proved against its
contracts.

- `src/` is the verified library: screen layout arithmetic, word wrapping,
  scrollback histories and scrolling, the top and status bars, input editing
  and completion, telnet handling and output buffering, tab routing, timers,
  the speech queue, help lookup, settings migration and the certificate
  checking setting.
- `tests/` exercises the library on concrete values.
- `app/` is the thin layer around it: the terminal, the network (plain or
  TLS), threads, files and the release service. It performs what the
  library decides.
