# udp_retransmitter

A UDP relay, sender, receiver and port probe with live terminal statistics.

- `src/` is the verified library (Verus): decimal and thousands-grouped
  numbers (`text`), sliding windows of samples (`window`), the statistics
  state of each tool (`stats`), retry decisions for sending (`retry`), byte
  units (`units`), packet display lines (`display`), random payloads
  (`payload`) and the probe's verdict (`probe`).
- `app/` is the program around it: argument handling, sockets, timers and
  the terminal. Run it as `app relay ...`, `app sender ...`,
  `app receiver ...` or `app probe`.
- `tests/` exercises the library on concrete values.
