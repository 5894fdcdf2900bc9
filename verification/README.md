# statbar

A status-bar line for Linux window managers: available memory, CPU usage and
temperature, network speed, battery and time, read from `/proc` and `/sys`.

The library (`src/`) interprets what the system files and commands hold and
decides what is shown and when to notify; its functions carry Verus
contracts over character sequences and are proved:

- `text`, `number`: whitespace, trimming, words, lines and prefix tests as
  `str` defines them; integer reading and decimal writing.
- `cpu`: `cpu` lines of `/proc/stat`, per-core utilization, the bar chart.
- `cpu_load`: the first line of `/proc/stat`, the load meter and the
  integer usage percentage.
- `memory`, `battery`, `network`, `temperature`, `ip`: the other readings;
  `json` holds JSON values as plain data for the `ip -j` output.
- `logfile`: the two-number state files kept in `/dev/shm`.
- `status`: the printed line.
- `laws`: properties across operations, such as state files reading back
  what was written.

`app/` reads the files, runs commands, shows notifications, does the
floating-point arithmetic and runs the sampling loop.
