# clippa

A link archive for the Wayland clipboard. The harvester watches the
clipboard and appends every new web link to a per-domain archive file
(`archive_<domain>.txt` under `~/.local/share/clippa`), with a desktop
notification and a scaled screenshot. The manager browses the archive by
domain, fuzzy-searches all links, shows page titles and screenshots, opens or
copies links and deletes links or whole domains.

## Layout

- `src/` is the library, verified with Verus. It holds every rule of the
  programs: archive paths and the screenshot hash, domain keys and the
  domain shown for a file, reading and writing archive files, the
  harvester's decisions, title extraction from page HTML, fuzzy search and
  ranking, the manager's and the viewer's browsing state, the meaning of
  each key and every text on screen. It never touches the disk, the network
  or the terminal: methods that need a file read or written say so in their
  result.
- `app/` is the executable around it: `harvest`, `manage` (the default) and
  `view`. It reads and writes files, polls the clipboard, fetches pages,
  draws the terminal interface and hands the library plain values.
- `tests/` runs the library on concrete inputs.
