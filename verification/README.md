# algolings

Watches a workspace of algorithm exercises. On every save it reruns the tests of
the exercise that the learner is on, says how it did, and moves on once it passes.

- `src/` is the verified library.
  - `watch`: debouncing saves, and telling stale test runs from current ones.
  - `channel`: waiting on a channel, and what it has answered so far.
  - `progress`: exercises, modules, and sequential progress through them.
  - `session`: the watch loop as a machine; `session_laws`: what holds of its runs.
  - `module_run`: what is done about each thing that the loop has to tell.
  - `hints`: giving out the hints of the current exercise.
  - `report`, `style`, `text`: the lines that are printed; `report_laws`: what holds
    of them.
  - `startup`: plain mode, and the order of the modules.
- `app/` is the program around it: files, processes, threads and the terminal.
- `tests/` runs the library.
