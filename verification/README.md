# tetron-systray

A tray client for the `tetron` daemon: the icon tells whether the daemon can be
reached and is active, the menu lists the members of each network, copies their
addresses, and puts networks on standby or resumes them.

What the tray shows and does is decided in a library that is verified with
Verus. The program around it pumps the events of the platform, talks to the
daemon and to the service manager, and carries out what the library answers.

## Layout

- `src/` is the library. Its crate documentation lists the modules.
- `app/` is the program: command line, main loop, native menu, connection to
  the daemon, installation of the service.
- `tests/` runs the library, with the crates that it calls.

## What is proved

- The member rows of a network are this machine and every peer, online first,
  then by label, whatever the order in which the daemon lists them.
- Bringing a submenu up to date in place never takes out the item of a row that
  is still shown, keeps the native items and their record in step, and ends with
  the same rows, trailer, title and toggle as building it from scratch, but for
  the order of the rows (as long as no two members share an address).
- The menu is built anew exactly when the daemon comes or goes or the networks
  change, whatever they are called, and not when something changes within a
  network.
- A click on an item acts on the network or the address that the item was made
  for.
- The poller is on the short interval for exactly as long as the menu counts as
  in use, and no interval is ever zero.
- Every poll is reported once, and the first one comes before any wait.
- The unit or property list sets the port that the service is installed with,
  and that value is the port that the dashboard is opened on. The unit lists both
  targets, and the app bundle has an identifier and `LSUIElement`.
- An installation succeeds exactly when the files could be written and the
  service became active; a command that fails only gives a warning. Removing the
  service takes away all that the installation put there.
- An invite code gives back the key and the secret that it was made of.

## What is trusted

The library calls `bs58` to decode base58, `iroh` to read a public key, and the
monotonic clock of the standard library. What is claimed of each is stated at
the functions that make the calls, in `src/invite.rs` and `src/poll.rs`.

## Settings

| Variable | Default | Meaning |
|---|---|---|
| `TETRON_WEBUI_PORT` | `7870` | Port of the dashboard |
| `TETRON_SYSTRAY_POLL_ACTIVE_SECS` | `3` | Interval while the menu is in use |
| `TETRON_SYSTRAY_POLL_IDLE_SECS` | `300` | Interval while it is not |
| `TETRON_SYSTRAY_POLL_UNREACHABLE_SECS` | `30` | Interval while the daemon cannot be reached |
| `TETRON_SYSTRAY_MENU_ACTIVE_WINDOW_SECS` | `20` | How long the menu counts as in use |

A value that is not a whole number, or an interval of zero, leaves the default.

`GIT_SHA`, set while the program is built, is the revision that it reports.
