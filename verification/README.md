# overlay-manager

A terminal interface for managing Gentoo Portage overlays: browse the
official registry and GitHub, add an overlay to `/etc/portage/repos.conf/`
and sync it with `emaint`, remove it again, and look at its packages.

The library (`src/`) is verified with Verus. It holds the application's
state machine and every rule and format it relies on, each with a contract:

- `app` — the application state, its key handling and the effects it asks
  the program to perform (scans, installs, syncs, removals, cache rebuilds);
  laws on filtering, navigation, help, quitting, messages and confirmation.
- `repos_conf` — reading and writing repos.conf sections; laws that an
  appended section reads back as written and that a removed one is gone.
- `remote`, `github`, `custom`, `sources` — the overlay lists and their
  merge, with canonical git addresses (`types`).
- `packages`, `keys`, `display`, `locale`, `utils`, `text` — package atoms
  and ebuild metadata, key bindings, display decisions, interface texts and
  the character-level text operations the parsers are specified with.

`app/` is the program around it: terminal drawing with ratatui, input with
crossterm, files, HTTP requests and `emaint` processes.
