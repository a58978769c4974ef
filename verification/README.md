# PaneDeck core

The core of a two-pane file manager, written in Verus: every decision the
program makes about the file system is an executable function with a
contract that Verus proves.

- `src/` is the verified library: the path and session model, capability
  references and their JSON-safe forms, the operation planner and its
  revalidation, the copy, move, rename/create and trash state machines, the
  bounded job queue, the progress throttle, directory listing and the
  watch debounce. Laws that span several operations are public proof
  functions named `law_*`.
- `app/` is the shell around it: it reads and changes the disk, runs the
  background readers and watchers, and carries the serde copies of the
  values that cross the IPC boundary.
- `tests/` runs the library on concrete values.

Verify with `verus` on `src/lib.rs` as a library crate.
