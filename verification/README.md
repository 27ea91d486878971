# fakexr

A fake OpenXR runtime for testing OpenXR clients, with its state and decisions
verified in Verus.

- `src/` is the verified library.
  - `model.rs`: the mathematical model. Handles name slots of a sequence of
    objects (instances with their event queues, sessions, action sets,
    actions); spec functions describe what every operation does to it.
  - `runtime.rs`: `Runtime` and its operations: creating and destroying
    objects, session events, attaching action sets, syncing actions and
    reading action states, each proved against the model. Well-formedness is
    a type invariant of `Runtime`. Destroying an action's handle does not
    destroy the action while the action set it was created in still holds it.
  - `procs.rs`: the name table behind `xrGetInstanceProcAddr`.
  - `flags.rs`: which parts of an OpenXR space location an OpenVR pose may
    use, computed with `openxr-sys`'s flag operations.
  - `invariants.rs`: proofs that every operation keeps the runtime well
    formed, and the intermediate stages of a sync.
  - `laws.rs`: properties spanning several operations (a synced state is read
    back, pending states are invisible until a sync, events keep their
    order, ...).
- `app/` holds the C entry points (raw pointers, the process-wide runtime,
  function pointers) and the floating-point pose conversions.
- `tests/` exercises the library.
