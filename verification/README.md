# mgnp

Channels and connections for small systems that talk over a wire, with proofs.

- `tricky_pipe` has the channels: bounded channels of many senders and one
  receiver (`mpsc`), reusable one-shot channels (`oneshot`), values that are shared
  to be serialized (`serbox`), and simpler queues (`spitebuf`, `tp1`, `tp2`,
  `tp3`). A channel can be used with typed values at one end and with serialized
  bytes at the other. `mpsc::concurrent` and `shared_ring` show that a channel, and
  a queue, stays in order however the steps of those who use it interleave.
- `message`, `conn_table`, `machine` and `connector` are the connections: the
  format of the frames, the table of the connections of an interface, the state
  machine that runs it, and the requests of local users. `pitch` and
  `simple_table` are smaller variants.
- `registry`, `mini_reg` and `discovery` describe services; `req_rsp` matches
  responses to requests.
- `codec` states the byte format of integers, strings, identifiers and lists, and
  frames them. Each message states its own format over these, beside its type.
- `plugtail` is storage with a header and a tail of items.

The library decides and never waits: a call that would have to wait says so, and
what is to be done outside is returned as an action. `app/` does the waiting, the
waking and the talking to wires and services.

The contracts of the calls into `postcard`, `uuid` and `cobs` (in `codec`), of
`core::any::TypeId` (in `tricky_pipe::typeinfo`) and of `core::array::from_fn` (in
`plugtail`) are trusted; everything else is proved.
