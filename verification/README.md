# RisDb

A small replicated key-value store. The nodes of a cluster keep a log by the
Raft protocol: they elect a leader, the leader takes the writes and shares them,
and what a majority holds is applied to the data of every node.

## Layout

- `src/` is the library, verified with Verus. It decides what a node does and
  does no input or output of its own.
  - `raft/` is the node: `state` and `messages` are its data, `data_store` applies
    the log, `peer` is what leaders and candidates do with the answers of their
    peers, `follower` takes entries over, `node` answers the other nodes,
    `read_write` serves clients, `heartbeat` makes its beats, `setup` joins the
    cluster, `leader` is a leader that follows each peer by its own indices, and
    `laws` states what holds across these.
  - `frontend/` is the HTTP frontend, its client, its certificates, and the way
    from requests to messages.
  - `deploy/` runs a cluster on one machine: the commands of the servers, the
    output of the installation, and the state of the terminal application.
  - `database` reads the arguments of a node, `text` works on texts.
- `app/` is ordinary Rust around the library: sockets, timers, files, terminals
  and the encoding of messages.
- `tests/` runs the library.

The proxy in `app/` is built with `--cfg proxy`, because Pingora needs a C
toolchain with CMake.

## Clusters

Two writes that are both committed are held by a common node, and so are a
committed write and an election. Two elections share a voter only where the
number of nodes is odd.
