# Pterodactil

Verified building blocks for daicon files: a daicon file lists its contents in tables of
entries, each naming a UUID and the offset and size of its data.

`src/` is the library, verified with Verus:

- `codec`: plain-value views of daicon table headers and entries, and their byte layout.
- `table`: the in-memory cached table: lookup, slot allocation, header construction, reading a
  table from bytes.
- `source`: the file source state machine, answering get requests and handing out slots.
- `set_task`: the state machine that appends data and writes its entry into a slot.
- `manager`: the file manager state machine, loading entries by UUID.
- `file`, `fetch`: file messages, the in-memory buffer file, and the fetched file.
- `package`: the bytes of a new, empty package.
- `schedule`, `world`, `relay`: the queues and decisions of the actor runtime.
- `family`, `io`, `pack`, `pack_cli`, `tools`, `viewer`: message types and small decisions.

`app/` is the command line toolkit (`create`, `set`, `get`) that runs the state machines
against files on disk. `tests/` runs the library on concrete values.

Note on the in-memory buffer file: a write to `WriteLocation::Append` starts at the offset equal
to the length of the written data, not at the end of the buffer (the system file in `app/`
appends at the end of the file). Appending a set task's data to a buffer file therefore
overwrites what lies at that offset.

Not in this crate: the viewer's graphics (the render pipeline, the per-frame rendering, the
canvas setup) and its browser fetch. They run on the GPU and in the browser, through graphics
and web crates that this build does not have; `viewer` keeps the viewer's requests and state
updates, and `fetch` the answering of reads once the fetched bytes are there.
