# noize

A terminal mixer for several audio streams played through mpv.

- `src/` is the verified library: the configuration and the saved state
  (`config`, `state`), the mixer itself (`mixer`: volumes, mutes, the global
  mute, selection, stream status, retries, and the commands its players must
  carry out), the key handling (`keys`), the screen (`screen`: its rows from `Mixer::rows`
  and its whole text from `Mixer::screen`), and what holds across operations (`laws`).
- `app/` is the program around it: argument parsing, reading and writing the
  JSON files, the terminal (raw mode and writing the screen text), and the mpv players that carry out the commands.
