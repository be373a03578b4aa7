# dispatcher

A dispatcher runtime whose control and scheduling rules are verified with
Verus, and the decision logic of a Redfish power equipment walk.

- `src/model.rs`: the abstract runtime state (`RuntimeModel`), its invariant
  `wf`, and one pure function per control operation and scheduling step.
- `src/control.rs`: configuration types, `AddGeneratorError`, and
  `RuntimeHandle`, the runtime state with its operations; each operation is
  proved to match its model function and to keep the invariant.
- `src/runtime.rs`: `Runtime`, the single driver of the ordered outputs; its
  `next` turns a reported event into the next action.
- `src/wellformed.rs`: proofs that every operation and step keeps `wf`.
- `src/laws.rs`: properties that span operations (ids never reused,
  cascading removal, wake requests, shutdown rules, admission limits, one
  selection and one admission per poll, every poll ends within six steps,
  shutdown is emitted once the queue and in-flight work drain, removed
  generators stay removed, ...).
- `src/power_equipment.rs`: power equipment, power shelf collections and the
  in-order member walk.
- `app/`: the asynchronous driver (futures, shared handle, user generators)
  and the Redfish I/O through `nv-redfish-core`.
