# deployment

Brings flows of connectors and pipelines up and controls them.

- `src/` is the library, verified with Verus. It decides which steps a runtime
  has to take and what follows from how they went:
  - `flow`, `ids`, `error`, `msg`, `deployment`: the data
  - `registry`: spawned instances by name, kept in a `hashbrown::HashMap`
  - `link`: the requests that link two instances
  - `topology`: sources, sinks, what is both and what is neither
  - `startup`: bringing a flow up, with its laws in `startup_laws`
  - `task`: the control task of a flow, with its laws in `task_laws`
- `app/` runs the library on `async_std`.
- `tests/` runs the library on concrete flows.
