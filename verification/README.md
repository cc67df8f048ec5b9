# niri-autostart

Declarative autostart and layout restoration for the niri compositor: a KDL file
declares workspaces, their columns and the windows stacked in each column; the tool
spawns what is missing, reuses what exists, moves windows to their workspace and
column, restores sizes and floating state, and leaves every workspace focused on its
first window. It waits only on niri's event stream, never on timers alone.

## Layout

- `src/` is the verified library (Verus):
  - `model.rs`: niri's workspaces, windows, layouts and events as plain values;
  - `state.rs`, `reducer.rs`: the tracked state, its indices, and how events change it;
  - `predicate.rs`: conditions on the tracked state;
  - `event_adapter.rs`: what the event adapter keeps, which events matter, and the
    decisions of each round of a wait;
  - `config.rs`: the declared layout, built from decoded KDL nodes and validated;
  - `runtime_state.rs`: the windows remembered per configured position;
  - `paths.rs`: where the config and the runtime state live;
  - `reconcile.rs`: the reconciler, a state machine that hands out one command at a
    time, with its step relation and laws;
  - `text.rs`: the texts of labels and messages.
- `app/` is the program around it: command line, KDL decoding, the JSON runtime state
  file, niri's sockets, the event-adapter thread and its waits, and the loop that
  performs the reconciler's commands.
- `tests/` exercises the library, including whole runs against a small stand-in for
  niri.
