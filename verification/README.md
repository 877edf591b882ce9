# dgmon

A lightweight system monitor for NVIDIA DGX Spark GPU clusters. Each GPU
node runs a push agent that collects GPU, host, network and inference-server
metrics and posts them to a central server; the server keeps the latest
snapshot per node, stores the history in a tsink time-series database, and
serves Prometheus, PromQL, REST and control-plane endpoints.

## Layout

- `src/` — the verified library (Verus). It holds the data model, the
  parsing of `nvidia-smi`, `netstat`, `/proc/<pid>/net/tcp` and scraped
  Prometheus text, inference-server discovery decisions, the node store, the
  command mailbox, the Prometheus exposition, the stored rows of a snapshot,
  the REST and Prometheus API answers, the mock collector's samples, and the laws that relate them
  (`src/laws.rs`).
- `app/` — the program around it: the command line, the collectors (which
  run `nvidia-smi`, read the system through sysinfo, and stamp the mock
  collector's samples with the clock), Docker and HTTP
  discovery and scraping, the tsink store, the actix-web handlers and the
  run modes.
- `tests/` — tests of the library.

Measured readings are floating-point numbers; the library carries them by
their bit patterns (`Real32`, `Real64`) and the program writes them out.
