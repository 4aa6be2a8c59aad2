# netsentinel

A network security monitor whose core is verified with Verus.

- `src/` is the verified library: decoding of Ethernet frames and DNS
  messages, TCP/UDP classification, the detection rules and the threat
  detector, alert bookkeeping, domain reputation, the DNS monitor, the plugin
  registry, per-process activity, the parsing of the kernel's socket tables,
  and what the command line and the desktop front end show. Laws that relate
  several operations are stated as public proof functions (`lemma_*`) beside
  the code they speak of.
- `tests/` runs the library on concrete values.
- `app/` is the program around it: live capture with libpcap, the async
  plumbing, SQLite storage, the floating-point anomaly models, process
  lookup through `/proc` and the system's process table, and the desktop
  commands.
