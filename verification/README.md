# yimai

The verified core of Yimai, a desktop music player: the rules it follows to
import LX-compatible source scripts, to talk to source APIs, to pick sources,
platforms and qualities, to scan the music library, to drive the system media
overlay and to update itself — each stated as a Verus contract and proved.

## Layout

- `src/` — the library, verified by Verus.
  - `lxsource` — source scripts (static contract extraction), requests to
    source APIs and the reading of their replies, probing of new sources.
  - `commands` — decisions of the player's commands: source, platform and
    quality choice, play plans, chart searches, downloads, settings checks.
  - `library` — audio files, formats, tag and file-name fallbacks, rescans.
  - `track` — a track from its file's bytes: tags, audio properties and the
    embedded cover (read by `lofty`), and the cover re-encoded as a JPEG of
    at most 600 px (by `image`).
  - `smtc` — media keys, the overlay's state machine, cover addresses.
  - `runtime` — the playback monitor, web view suspension, tray, close
    button and output device watcher.
  - `updater` — versions, release documents, installer downloads and the
    install helper script.
  - `json`, `net`, `paths`, `patterns`, `text`, `models` — plain values and
    text operations the rest is built on.
- `tests/` — tests of the library on concrete values.
- `app/` — the application around the library: HTTP, files, tag writing,
  colour palettes, processes and the desktop shell.
