# ipc2

Inter-process communication between a host process and a set of worker
processes. The logic is proved against its contracts; what it rests on
from other crates is stated in `src/external.rs`.

- `src/` is the verified library: the frame format on the socket
  (`frame`), the messages (`message`), the host's job table and the
  decisions of its two event loops per worker (`manager`), socket paths and
  worker ids (`server`, `util`), the worker's message-loop decisions
  (`worker`), and the worker set's builder, pool and job settlement
  (`workerset`). Outside types and calls stand in `external`, each with what
  is assumed of it.
- `app/` is the asynchronous rest: sockets, spawned processes, tokio tasks
  and channels, and the serde and thiserror copies of the library's types.
- `tests/` exercises the library on concrete values.
