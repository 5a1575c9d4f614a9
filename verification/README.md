# iconcraft

The verified core of IconCraft, a desktop tool that gives files, folders and
file extensions custom icons on macOS and Windows, keeps them in place, and
restores the default icons.

`src/` is the library, verified with Verus:

- `walk` — the walk over a directory tree down to a recursion limit, fed one
  directory listing at a time; its finished state is proved to hold exactly
  the directories (and, for easter batches, files and extension keys) the
  limit admits, each collected once, root first.
- `rules` — icon rules: applying an icon to a list of targets while keeping
  the first backup of each, replacing and removing rules, restore plans, and
  the monitor's checks and repairs (a repair never drops or overwrites a
  backup).
- `native` — per-platform plans for applying and restoring an icon
  (Finder, `desktop.ini`, registry `DefaultIcon` keys) and their backups
  (a folder's old `desktop.ini`, a Finder custom icon, an extension's old
  registry values), with the proof that a restore puts back what was saved.
- `easter` — easter batches, applied target by target and undone last first,
  with the proof that restoring a batch gives each target its earlier state.
- `system` — data paths, image preparation, the clock, start at login and
  monitor timing.
- `target`, `model`, `text`, `error` — target checks, the stored data, string
  helpers and errors.
- `outside` — the trusted calls into std, `base64`, `dirs`, `uuid` and
  `image`.

`app/` is the Tauri shell: file system, registry and Finder access, settings
storage, the tray and the commands the user interface calls.
