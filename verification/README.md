# cargo-embed

The decisions behind `cargo embed`: build a firmware image, attach a debug probe, write
the image, reset the target, serve GDB and show the RTT channels.

- `src/` is the verified library. It holds the order of the steps (`plan`, `run`), the
  choice of the probe (`probe`, `hex`), the RTT channels (`channels`), the retries while
  attaching to RTT (`attach`), the course around the channels (`show`), the loop of the
  terminal interface (`ui`), the name of the log (`logname`), the arguments (`args`), the
  status lines (`style`) and the report of errors (`report`).
- `app/` performs the steps: command line, files, threads, locks and logging. What it
  needs of the rest of the program it has from an implementation of `Host`.
- `tests/` runs the library on concrete values.
