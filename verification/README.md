# ccplan platform logic, verified

The logic behind ccplan's native scheduler and notifier backends, written in Verus with its
contracts proved:

- `src/format.rs` — trigger names (`ccplan-<id>`, `\ccplan\<id>`, `io.ccplan.<id>`), Windows
  argument quoting, XML escaping, AppleScript and VBScript string literals.
- `src/listing.rs` — reading the owned ids back from `systemctl --user list-timers` and
  `schtasks /Query /FO LIST` output (sorted; timer ids without duplicates).
- `src/time.rs` — instants and their calendar renderings; the time-zone arithmetic is jiff's.
- `src/schtasks.rs`, `src/notify/` — the task XML, notifier scripts, and what each backend
  concludes from a command's outcome or the session environment.
- `src/laws.rs` — every escaping can be undone, a quoted argument (without backslashes) is
  read back by a Windows program as exactly that one argument, and listings recover the ids
  that naming used.

`app/` is the thin binary that probes the environment, runs `schtasks.exe`, `osascript` and
`wscript.exe`, and shows Linux notifications through `notify-rust`.
