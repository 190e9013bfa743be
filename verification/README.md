# tmux_menu

A configurable tmux menu: a YAML file lists rows, and each row shows a popup,
runs a command in the background, or opens another menu.

- `src/` is the library, verified with Verus: the command lines given to
  `sh` and to tmux (menus, popups, panes), the quoting they rely on, the
  loaded form of a menu file, and the laws that tie them together (a word
  quoted by `shell_quote` or for tmux reads back as itself, a popup's saved
  geometry reads back as its position, a menu row's index reads back as that
  row, a line made by `shell_join` splits back into its words, and a menu
  loaded with its names evaluated has the rows of the menu loaded for
  select, but for their names). The
  words `shell_join` quotes go through the `shlex` crate: the library takes
  from its documentation that each quoted word reads as that word, and
  proves the rest.
- `app/` is the program around it: argument parsing, reading the menu file,
  running commands and tmux, the named pipe that carries typed inputs.
- `tests/` runs the library on concrete values.
