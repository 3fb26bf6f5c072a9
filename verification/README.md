# cortexflow_cli

The logic of the CortexFlow command line tool (`cfcli`), verified with Verus.

- `src/` is the library. It builds the command lines handed to `kubectl`,
  reads what `kubectl` prints (lines, words, status columns, service tables),
  decides what each outcome of a run means, and renders the status reports in
  plain text, JSON and YAML. Every function there carries a contract that
  Verus proves.
  - `text`: lines, words, trimming and padding, stated as `str::lines`,
    `str::split_whitespace`, `str::trim` and the `{:<width}` format give them.
  - `runner`: the outcome of a program run as plain values, and the
    `CommandRunner` trait through which commands are run.
  - `logs`, `status`, `service`, `uninstall`, `policies`: one module per
    command of the tool.
  - `report`: lists of rows and names as the reports print them.
- `app/` is the program around the library: argument parsing with clap,
  running processes, connecting to the cluster with kube, the agent's gRPC
  requests, colored output.
- `tests/` runs the library on concrete inputs, with a stub runner in place of
  `kubectl`.
