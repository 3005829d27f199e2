# FreeGSM

A transparent DNS-over-HTTPS proxy with a TLS relay. On macOS a temporary `pf` anchor sends DNS
(TCP and UDP, port 53) to a local proxy that asks an upstream server over HTTPS, and TCP port 443
to a local relay that cuts TLS greetings into several records. UDP port 443 is blocked, so that
clients fall back to TCP. On exit the anchor is emptied.

- `src/` is the library: what the proxies decide and compute, verified with Verus. It does no
  input or output. A session is a state machine: it is told what happened and tells what to do.
- `tests/` runs the library on given values.
- `app/` is the program around it: sockets, threads, child processes, `/dev/pf`. It draws
  at random where greetings are cut (`app/dpi.rs`) and asks the upstream server by way of
  `curl`. It runs on macOS alone; the steps that the library plans for Windows need WinDivert.

Two functions of the standard library are trusted, in `src/command.rs`: `String::from_utf8_lossy`
and `String::from_utf8`.
