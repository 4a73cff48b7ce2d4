# doomrakr

A small music-streaming system: a server walks a music library laid out as
`ARTIST/ALBUM/SONG`, and streams songs to connected clients, which cache them
and play them in order.

- `src/` is the verified library: the wire format of headers and songs (with
  proofs that a receiver reads back exactly what was sent), the library
  directory, the server console's choices, the per-client streaming state of
  the server, the client's replies and play queue, cache paths and log names.
- `app/` is the program around it: sockets, threads, the file system, audio
  output, the HTTP interface and JSON output. Run it as
  `doomrakr server`, `doomrakr client <client_id> <server_host>` or
  `doomrakr remote`.
- `tests/` exercise the library on concrete values.
