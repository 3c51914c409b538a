# rektorrent

The logic of a BitTorrent client, its daemon and its controller, verified with Verus.

- `src/codec.rs`: the peer wire protocol, read from and written to byte buffers.
- `src/peer/`: the handshake, and what a connection does with messages and commands.
- `src/tracker/`: announcements over HTTP and UDP, and which tracker is told what.
- `src/bencode.rs`, `src/metainfo.rs`: bencoded values, torrent files and their info-hash.
- `src/disk.rs`: what is done to a file to write or read a block.
- `src/daemon.rs`, `src/dashboard.rs`: the daemon's downloads, and what the controller shows.
- `src/octets.rs`, `src/text.rs`, `src/io_error.rs`: byte strings, text, and input and output
  errors.
- `app/`: sockets, files, the terminal and the service between daemon and controller. Started as
  `rkd` it is the daemon, otherwise the controller.

What Verus believes without proof are the calls into `bytes`, `bendy`, `sha1`, `url`, `rand` and
a few functions of the standard library. Each stands in a function marked `external_body`, or in
an `assume_specification`, whose comment says what is claimed.
