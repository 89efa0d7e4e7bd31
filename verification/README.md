# incode

InCode is a Model Context Protocol server for debugging with LLDB: an agent
sends JSON-RPC requests on standard input and runs debugging tools (process
control, stepping, breakpoints, stack, memory, variables, threads,
registers, debug information, target information) whose answers come back on
standard output.

## Layout

- `src/` is the library, verified with Verus. It holds the JSON model of
  requests and answers, the debugger state (sessions, the selected target,
  process, thread and frame), every tool's argument handling, safety checks
  and answer, the tool catalog and the protocol's messages. Operations that
  need the debugger engine take what the engine reported as arguments, so
  each decision is proved for every report.
- `app/` is the program around it: command-line handling, logging, the
  request loop on standard input and output, the calls into LLDB's C
  interface, file access, and the argument schemas listed by `tools/list`.
- `tests/` runs the library on concrete values.
