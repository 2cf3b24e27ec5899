# ores-otel-cli

The verified core of the `ores-otel` command-line tool, written in Verus.

- `src/` is the library, checked by Verus: command-line parsing (`args`),
  the environment map (`env_map`), the interpretation of what the flags
  parser reports (`flags`), the settings read from the environment
  (`config`), diagnostic record fields (`telemetry`), the text that the
  commands print (`commands`), a marker scanner (`markers`), errors
  (`error`) and text helpers (`text`).
- `app/` is the program around it: process arguments and environment, the
  flags parser that reads `.cli-flags.toml`, terminal detection and runtime
  policy, logging and output.
- `tests/` runs the library on concrete values.
