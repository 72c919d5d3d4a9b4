# rustcast

The verified core of a keyboard launcher: what a query finds, what a key press
asks for, how files are searched with `mdfind`, and when the launcher tells its
window that something has changed. The contracts are checked by Verus.

- `src/`: the library.
  - `index`, `apps`, `string_map`: the entries, the index of them, search and
    ranking. `index_laws` holds what is true of every index.
  - `file_search`: the arguments of `mdfind`, the reader of its output and the
    search that starts and stops it. `file_search_laws` holds what is true of
    every search.
  - `keyboard`, `message`, `page`, `hotkeys`, `settings`, `tile`: the window's
    state and what moves it.
  - `watch`: the clipboard, the installed apps, the theme and the upkeep.
  - `text`: text as a sequence of characters.
- `tests/`: tests of the library.
- `app/`: the window itself, in ordinary Rust: event streams, processes, files
  and the clipboard.

Searching, sorting by rank and counting run in parallel with rayon. The
functions marked `external_body` make those calls; what they claim of rayon and
of the standard library is believed, not proved.
