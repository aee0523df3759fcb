# codex-a2a

A server that answers A2A JSON-RPC requests by running Codex on the local machine, with its rules
verified by Verus.

`src/` is the verified library: who may ask (`auth`, `net`), how requests are read and answered
(`http`, `rpc`, `stream`), what is kept of tasks and contexts (`state`, `service`, `send`, `tasks`,
`sessions`, `run`, `locks`), what the two backends are asked and how their answers are understood
(`backend`), how processes are ended (`process`), and what holds of all of it over any calls and
runs (`laws`). It opens no sockets and no files and reads no clock.

`app/` is the program around it: sockets, the configuration file, the registry files, processes,
threads and time.

`tests/` runs the library on concrete values, with the crates that it depends on.
