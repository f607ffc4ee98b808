# herdr-navigator

The helper of `herdr.nvim`: it moves between Neovim windows and
[Herdr](https://herdr.dev) panes with one family of keys, `Ctrl+h/j/k/l`, and
splits panes so that navigation knows about the new one at once.

    herdr-navigator dispatch|focus left|down|up|right
    herdr-navigator split right|down
    herdr-navigator register|release

`register` writes an empty marker file, named after the public id of the active
pane, under `~/.cache/herdr.nvim/sessions/<socket-hash>/panes/`, and `release`
removes it. `dispatch` first removes the markers of panes that do not live any
more, by Herdr's `pane.list`, whether or not the active pane has a marker. Then it
forwards the key of the direction into the active pane where that has a marker;
otherwise it moves the focus, as `focus` does.

## Layout

`src/` is the library, verified by Verus. It does no input or output: a command
is a course of steps (`steps`), each of which asks the caller for one thing. The
first step comes from `navigator`, the step after each answer from `answers`,
and `laws` states what holds of commands as a whole. Below them:

- `requests`, `wire`, `json`: requests to Herdr and its replies. Text is read and
  written by `serde_json`, whose calls are specified in `wire`.
- `session`, `layout`, `adjacent`, `geometry`: the session file, the rectangles of
  the panes, the pane beside another one, and what holds of them by the order of
  coordinates.
- `cache`, `seed`, `panes`: the layout cache, how it is filled, and whether it is
  up to date with the live panes.
- `paths`, `clock`, `direction`: where files are, the time, and the keys.
- `text`, `order`, `tables`: texts, their order, and maps.

Coordinates are doubles, held by their bit patterns. The library orders them; the
arithmetic on them is the caller's.

`app/` is the program: it performs the steps.
