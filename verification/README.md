# protocol

The node-to-node protocols of the Meowith storage system, with their wire
formats and bookkeeping given proved contracts.

- **MDSFTP** (`src/mdsftp`) moves chunks between storage nodes over
  multiplexed channels. The library holds the nine-byte packet header, the
  packet types and their payload sizes, the byte layout of every message,
  whole packets, the state of a channel (which requests await an answer,
  whether a handler takes its packets), the state of a connection (its
  channels, where each incoming packet goes, how channel identifiers are
  drawn) and the state of a pool of connections (which connection a new
  channel uses, which connections are swept). A connection's channel count
  goes up for every channel opened and down for every channel this end
  closes; a channel that the remote end closes stays counted. A retrieval
  whose range is reversed is a packet without a message: readers drop it
  and read on. A channel handler that fails with a connection error makes
  the reader close the connection.
- **MGPP** (`src/mgpp`) broadcasts cache invalidations: its packets, their
  framing, the handler table, and the decisions of the client's reconnect
  watchdog.
- **Catche** (`src/catche`) tells clients of a cache server which entries
  to drop: the invalidation packet. A writer sends the key's length in
  eight bytes; a reader takes it in four.
- `src/file_transfer` holds the lock and error kinds of the earlier file
  transfer protocol, `src/framework` the traits of framework packets,
  `src/bytes.rs` big-endian integer encoding, `src/error.rs` the error kinds.

Each public function states what it returns in its contract, and the laws
that relate several functions (a written header, packet or message reads
back as itself; an answer reaches exactly the request that awaits it; the
two ends of a connection never draw the same channel identifier; sweeping
removes exactly the swept connections; ...) are public proof functions.

`app/` is the networked side: TLS set-up, the tasks that read and write
packets, the handler traits that node services implement, and error types
that can be displayed. It makes no decision of its own on bytes or
bookkeeping; it asks the library.
