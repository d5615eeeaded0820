# krill

The terminal engine of the windKrill terminal, verified with Verus.

`src/` is the library. A `Screen` (grid, scrollback, alternate screen,
scroll region, renditions, modes) follows a mathematical model,
`ScreenView`, operation by operation. The `vte` state machine turns host
output into events (`VtAction`); `TermPerformer` applies them to a screen,
and `VtParser` and `SessionCore` tie the two together. `SnapshotDto` is the
run-length form a renderer draws. `SessionActor` takes every decision of a
session's actor loop: what each command, read or transport outcome leads
to. `src/laws.rs` states the properties that span several operations.

`app/` is the program around it: the async transport trait, the ConPTY
transport (Windows), the Tokio actor loop that performs what `SessionActor`
decides, the pump, serde copies of the snapshot types, and the command
layer.

`tests/` exercises the library through its public interface.
