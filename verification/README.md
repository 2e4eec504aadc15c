# Skerry

A text editor whose logic is proved with Verus. The library under `src/` holds
the editor: the text buffer with its carets, undo and redo, the keys and events,
search and replacement, tabs and files, panels and dialogs, the answers of
language servers, the Markdown and CSV previews, what each line and each part of
the window shows, and how far a window scrolls. Every function says in its
contract what it returns and what it changes.

The editor does no I/O. What it wants done it appends to a list of requests
(`effect.rs`); the program around it carries them out in order and hands the
outcome back to a function of the library. The program under `app/` does so in a
window (egui) or, with `--tui`, in a terminal (ratatui).

## Layout

- `buffer`, `lines`, `columns`, `text`: text, lines and columns, in bytes and in
  characters
- `motion`, `carets`, `editing`, `line_ops`, `occurrences`, `order`: what moves
  and edits a text
- `event`, `input`, `pointer`: keys and clicks, and where they go
- `app`, `state`, `session`, `effect`, `config`: the editor as a whole
- `typing`, `finding`, `navigation`, `files`, `pickers`, `language`, `upkeep`:
  its events by topic
- `search`, `matching`, `filter`: matches of a query
- `markdown`, `csv_preview` and their looks: the previews
- `previews`, `revisions`: which text a preview is of
- `paint`, `line_view`, `frame`, `labels`, `help`, `scroll`, `theme`: what is
  shown
- `laws`: what holds of every event and input

Outside crates are called where their work is needed: `pulldown-cmark` reads
Markdown, `csv` reads tables, `url` turns an address into a path. Each such call
stands in a small function whose contract says what is relied on.
