# perf_probe

A CPU-time probe for a training simulator. `perf_probe root` plays a game from a
fixed seed to the training decision of a given turn and times searches there;
`perf_probe whole` times whole games.

- `src/` decides: command line (`arguments`, `cli`, `command`, `help`), defaults
  (`defaults`), decks (`deck`), the walk to the training decision (`advance`), seeds
  and figures of a search (`search`), the course of the two subcommands (`root_run`,
  `whole_run`), the printed lines (`report`), failures and their messages (`error`,
  `quote`), numbers and text (`numeral`, `text`). It is verified with Verus. The
  calls out of it are trusted: to `lexopt` (in `arguments`), to `rand` (in `search`)
  and to the `Debug` formatting of the standard library (in `quote`); what is
  believed of each stands in the contract of the function that makes the call.
- `app/` does: it reads the configuration file, drives the simulator and prints.
- `tests/` runs the library on concrete values.
