# rogue_tremolo

Moves torrents between torrent clients: `pull` reads the torrents of a
Deluge or qBittorrent client into a flat-file store, `push` adds stored
torrents to a qBittorrent client.

- `src/` is the verified library: the options and client lookup, info hashes,
  the torrent records and the state mappings of both clients, and the pull and
  push sessions, which decide, between the requests to a client, what to send
  next and what to store.
- `app/` is the program around it: reading the options file, the store, the
  web API calls of the clients, and the command line.
- `tests/` runs the library on concrete values.
