# portwatch

A terminal monitor of network ports and the processes behind them, with alert rules
that fire desktop notifications.

- `src/` is the library, verified with Verus: the connection-table parsers of each
  platform (`backends`), the reading of IP addresses (`ip`), the alert rules and
  their evaluation, cooldowns and history (`alerts`), the monitor's state and how
  keys, actions and scans change it (`app`, `events`, `daemon`), and the texts and
  line styles that the interface shows (`ui`).
- `app/` is the program around it: the terminal and its drawing, reading `/proc`,
  running `lsof` or `netstat`, the process table, stopping processes, the rules file
  and notifications.
- `tests/` runs the library on concrete inputs.
