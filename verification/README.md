# fedorawin

The FedoraWin desktop shell for Windows: a GNOME-style top panel,
Activities, Quick Settings and native window-frame styling.

- `src/` is the verified library (Verus). It holds the shell's decisions:
  appearance and surface state, the application catalog and its aliases,
  monitor layout order and topology, the panel's layout and click targets,
  the reversible DWM frame journal and its crash recovery, the taskbar and
  radio-pause journals, virtual-desktop ids and the workspace-move journal,
  Wi-Fi / Bluetooth / power / brightness readings, and the icon cache.
  Every public function states its result in its contract; the laws that
  relate several operations are public proof functions (`lemma_*`).
- `src/portable/` holds the behaviour on systems without the Windows shell
  APIs.
- `app/` is the program around the library: the Tauri runtime and its
  commands, the Win32/COM/WinRT/WMI calls, and the floating-point surface
  geometry. It performs the system calls and hands what it reads to the
  library.
- `tests/` exercises the library on concrete values.

## Collections keyed by window handle

`HandleMap` (thumbnail and overlay registrations) and `FrameJournal` (the
frame journal) keep their entries in a `Vec` with an invariant that no
handle occurs twice, rather than in a `std::collections::HashMap`. Verus
would accept a `HashMap` with `isize` keys; the reason is the contracts:
callers walk the entries, hand back one keep flag per entry in that order
(`HandleMap::retain`, `ThumbnailManager::prune`), and get the dropped or
drained values, and the journal's entries, back in a stated order. The
order in which a `HashMap` is walked depends on its randomly seeded hasher,
so none of those orders could be stated over it. `IconCache` is keyed by
`String` and is a `Vec` for the same reason.
