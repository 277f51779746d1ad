# localex

LocalEx finds devices on the local network over mDNS, lets their users verify each other,
and exchanges files and messages between verified devices over libp2p.

The library (`src/`) is written in Verus and verified. It holds the decisions:

- `protocol`: the daemon's node — peers, verification requests and answers, gossip (host
  names, sync offers), client requests, file offers — as handlers that update the node and
  list the actions to perform;
- `pairing`, `screen`, `agent`, `deamon`: the single-process agent, its screen state, its
  retry-counting peer table, and the first stand-alone daemon;
- `file`: chunking, zstd compression, the file protocol's messages and the receiver's
  bookkeeping;
- `ipc`, `sock`: the framing of messages on the daemon's socket, the retrying writer, the
  client table, and where the socket lives;
- `tui`, `ffi`, `config`, `store`, `message`, `peer`, `table`, `assoc`, `bytes`, `util`:
  the terminal client's state, the Android conversions, configuration, stores, topics and
  sync offers, peer ids and the maps they key;
- `laws`: properties spanning several operations (round trips of the conversions, a
  request answered on its own channel, chunks covering the data, retries ending in a
  block).

`app/` is the ordinary Rust around it: the daemon's event loop over libp2p and the Unix
socket, the terminal client and the agent drawn with ratatui, and the command lines.
