# kwybars

The logic of the Kwybars desktop audio visualizer's command-line tools and
live frame backend, written in Verus with contracts that Verus proves.

- `src/text.rs`: character-level helpers (comparison, prefixes, Unicode
  trimming, splitting, decimal notation) with their specifications.
- `src/cli.rs`: the standard `[--config <path>] [--help]` command line.
- `src/control.rs`: the `kwybarsctl` command line and the rules and
  messages of switching the active config file.
- `src/live.rs`: choosing the frame source, the `cava` configuration, and
  turning a line of `cava` output into bar levels.
- `app/`: the `kwybarsctl` program and the I/O around the library (process
  environment, file system, threads, the `cava` process, float levels).
