# Sentinel

Sentinel monitors a machine's CPU, memory, disks and network interfaces,
writes snapshots to rotated JSONL or CSV logs, and raises alerts (log records
and optional webhooks) when CPU or RAM usage stays at or above a threshold
for a number of consecutive readings.

The decision logic is a library verified with Verus (`src/`):

- `cli` — the command-line grammar, option defaults and value validation;
- `config` — the configuration built from the arguments, with the webhook
  URL parsed and never shown in debug output;
- `alert` — consecutive-reading debounce, collector-health alerts, webhook
  payload choice, message text, URL redaction and the retry policy;
- `collector` — snapshot assembly, reading checks and the network
  collector's per-interface deltas;
- `persistence` — the write buffer, the CSV column layout, rotation
  decisions, rotated file names and retention;
- `models`, `text`, `numeric` — records and the string and number helpers
  the contracts are stated with.

`app/` is the program around it: argument intake, tracing, sysinfo readings
with their floating-point gauges, the async engine loop, HTTP delivery and
file I/O.
