# soulless

The decision-making core of the Soulless launcher for the COSMIC desktop,
written in Verus: every function in `src/` carries a `requires`/`ensures`
contract that Verus proves.

- `src/` — the verified library: drawers and their laws, the app catalog
  (desktop, Flatpak, AppImage, Steam, JetBrains, Wine, PATH and file
  entries), stable registry ids and their migration, smart queries and
  scoring, keyboard and drag-and-drop navigation, activation and the
  command box, the file organizer, the icon search order, the display
  census, and the integer side of the system monitors.
- `tests/` — tests of the library on concrete values.
- `app/` — the headless program around it: command line, configuration
  and caches on disk, directory walks, processes. Whatever reads the disk,
  the environment or the clock, and whatever needs floating point, lives
  here and hands the library plain values.
