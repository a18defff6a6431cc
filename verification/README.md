# champr

ChampR helps League of Legends players with champion builds and rune pages.
It has two halves: a desktop client that watches the League Client and shows
the runes of the champion the player picks, and a build server that stores
builds per source and champion behind a small authenticated HTTP API.

This crate holds the logic of both halves as a library whose functions carry
`requires`/`ensures` contracts proved by Verus:

- `text`: string operations (trimming, splitting, lines, decimal numbers)
  stated over sequences of characters.
- `b64`: the standard Base64 encodings, with the proof that the padded
  one is one to one.
- `cmd`: reading the League Client's command line (port, token, region,
  directory), and the scripts and arguments used to query it.
- `envfile`, `web`, `config`: `.env` files, the build server's address and
  the server configuration, and the addresses the client fetches.
- `error`, `models`, `auth`, `server`: the server's errors, records and
  requests, password and credential checks, and the rules of each write.
- `client`: which champion the player picked, the watch over the League
  Client as a state machine, and what the windows show.

`app/` is the program around the library: the HTTP server (axum, SQLite).
It hands the library plain values and acts on what comes back. It also
holds the client's process, network and file work and the reading of
socket messages, but no client program: the desktop client's window, its
settings, its League Client API and its socket connection are not part of
this crate, so nothing runs the client's watch (`client::MonitorState`).
