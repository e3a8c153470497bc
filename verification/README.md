# myquest

The core of myQuest, a personal life-management app: a habit tracker, a
weekly todo list and a life timeline. The library in `src/` is written in
Verus and verified by it. Its calls into outside crates and into parts of
the standard library that Verus has no specification for go through small
trusted wrappers, each documented with what its contract claims; what
depends on the clock, the random source or the user's folders is stated
only as far as it holds whatever comes back.

- `habit`: week starts, habit records, the store of habits with marked
  days, the habit calendar and its header, and the tab bar's list edits.
- `todo`: the week of todos kept per day with positions, drag-and-drop
  reordering, and the day tabs.
- `timeline`: life periods and their events, kept ordered by start, with
  ids filled in on demand; `legend` and `views` hold the legend editor's
  rules and what the timeline screens show; `startup` what the timeline
  screens start with.
- `storage`, `paths`, `config`: store settings and errors, backup naming,
  the data directory and file paths, and the configuration sources.
- `color`, `share`, `dates`, `text`, `sort`, `ids`: shared helpers, with the
  calls into chrono, uuid, qrcode, directories and the standard library.

`app/` is the program around the library: file and database I/O, the async
managers, the serde forms of the records, and `main`.
