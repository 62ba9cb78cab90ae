# mando

A web front for smart-home devices. It speaks no protocol of its own: every
operation and every reading is a command line of the configuration, run as a
subprocess.

`src/` is the library, verified with Verus. It decides what a request comes to,
what the output of a command means and what is answered:

- `config`, `validate`: the configuration and the rules it keeps to
- `control`, `groups`, `catalog`: operating devices and groups, and listing them
- `state`, `status`, `cache`: the state of a device, and how it is answered
- `push`, `push_laws`, `listener`: lights whose states are pushed, and the
  listener that pushes them
- `graph`, `health`, `charts`: charts and the report on health
- `mesh`, `mesh_job`: the radio mesh, and reading it in the background
- `subprocess`: what the exit of a command means, and which commands wait for
  each other
- `answers`, `shape`, `reply`: the form of answers and of refusals
- `json`, `wire`, `dict`, `text`: documents, maps and text

What the library has from `serde_json` is called from `wire` alone.

`app/` is the program around it: HTTP, subprocesses, the configuration file and
the clock. `tests/` runs the library.
