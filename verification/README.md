# clip_engine

The rules of a local clipping workstation, with proofs: how recordings
are recognised and named, the FFmpeg command lines for previews, thumbnails
and 1080p exports, the local media server's request handling (routing, byte
ranges, response heads), the player's audio-track selection, the recorder's
audio routing, the tray menu and recording badge, encoder choices, launch at
login, recorder hotkeys, the stages of a publish run, how the desktop
window reacts to the messages of its background work (toasts included), and
what its sign-in, publish and encoder-settings panels show.

Layout:

- `src/` — the verified library, one module per area (`media`,
  `media_server`, `player`, `recorder`, `encoders`, `hotkeys`, `library`,
  `commands`, `publish`, `ui`, `dialogs`, `startup`, `tray`), with `text` and `paths` as the models of
  strings and Unix paths they share.
- `tests/` — tests that run the compiled library.
- `app/` — a small command-line program around the library: sockets, files,
  FFmpeg processes and the autostart entry.
