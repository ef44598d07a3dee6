# wallscape

A live-wallpaper manager for Windows: a library of still images and videos,
applied to every display or to one monitor, with favorites rotation,
automatic pausing, wallpaper history, and downloads from Wallhaven and
MotionBGS.

## Layout

- `src/` is the verified library (Verus). It holds the rules of the app:
  which files are wallpapers, how an import is recorded, how a wallpaper is
  applied and what is remembered about it (per-monitor assignments, the last
  and previous wallpaper, the original desktop picture), history and undo,
  rotation, the pause state machine, cache cleanup, the Wallhaven and
  MotionBGS request and page logic, the MP4 duration reader, the placement
  of video windows on the desktop, and the settings. Every public function
  states its result in its contract; the laws that span several calls are
  public proof functions (`lemma_*`).
- `tests/` runs the library on concrete values.
- `app/` is the Windows program around it: the SQLite store, the Win32 and
  libmpv calls, the HTTP clients, and a command line
  (`wallscape <command> [arguments]`, results printed as JSON). The Windows
  parts build only for Windows targets.

## Trusted calls

The library calls a few outside functions through small wrappers whose
contracts are taken on trust: URL parsing and joining (`reqwest::Url`), HTML
selection (`scraper`), JSON reading and writing of string lists and string
maps (`serde_json`), base64 decoding (`base64`), Unicode lowercasing and
uppercasing, path comparison (`std::path`), and the system clock. Each
wrapper's doc comment says what its contract claims.
