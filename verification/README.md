# ultracam

The verified core of a console for the TOTK UltraCam mod: a window that sends
camera and game commands to the game over TCP and records camera sequences
that the game reports back.

`src/` is the library, proved with Verus:

- `protocol` — the packets: every field a little-endian 32-bit word; reading
  on/off and time-of-day answers.
- `commands` — the table of commands, their categories and argument kinds.
- `keyframes` — keyframe reports from the game and the store of named
  sequences, kept in name and index order.
- `text_map` — the ordered map by text key that the store is built on.
- `text`, `decimal` — character-level text operations and decimal numbers.
- `config` — the listening address and port.
- `network` — the messages between the window and the connection.
- `session` — connection status, the bounded log, and the packet each
  command's inputs make.

`app/` is the program around it: the eframe window, the tokio TCP server,
and the files (console.ini, keyframes.json). `tests/` runs the library.
