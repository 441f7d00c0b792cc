# rperf3

A network throughput tester in the style of iperf3, with its core written in
Verus and proved against its contracts.

- `src/` is the verified library: the UDP test packet format, the token
  bucket rate limiter, the buffer pool, statistics collection (byte totals,
  UDP loss and reordering, transit-time differences for jitter), interval
  accounting, bandwidth string parsing, control message framing, the client's
  control-flow state machine and the server's decision on a setup request,
  the configuration model and the
  registry of the web front end's tests.
- `app/` is the program around it: sockets, timers and tasks, JSON, the
  command line, floating-point rates and jitter, and the web front end.
- `tests/` exercises the library through its public interface.
