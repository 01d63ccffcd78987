# alglobo

A two-phase-commit coordinator ("alglobo") that books the operations of each
transaction with three services (hotel, airline, bank), with leader election
among several coordinator nodes.

- `src/` is the verified library: the text formats of messages, transaction
  files and logs (with round-trip proofs), the services' answers, the
  coordinator's commit decisions and its record of failed transactions, and
  the election state machine of a node with its message encoding.
- `app/` runs the program: sockets, threads, files, the console and Ctrl-C.
  It performs the actions that the library decides.
- `tests/` exercises the library on concrete values.

Start with `clear`, `service <hotel|airline|bank>` or `alglobo <node id>`.
