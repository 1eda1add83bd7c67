# mise_tui

A configurable terminal dashboard: a grid of panels (CPU, memory, disks,
network, temperatures, processes, package updates, services, Hyprland
workspaces) described by a TOML file, with several layout profiles, a
layout editor and configurable key bindings.

## Layout

- `src/` is the library, written in Verus and verified. It holds the
  configuration model and its validation, the key-string parser and key
  dispatcher, the layout editor's state machine, profiles, the grid layout
  engine, themes, the parsers for `checkupdates`, `systemctl show`,
  `/proc/diskstats`, `/proc/mounts` and Hyprland's JSON replies, and the
  state of each widget. Most contracts state exactly what a function
  returns. Where the result comes from `ratatui`'s layout solver (the
  screen areas of the header, the cells and the panels), the contract
  states what holds of every area the solver can give, and the functions
  that take the solver's areas as arguments (`chrome_from_parts`, `row_cells`,
  `LayoutEngine::panel_rects`) are exact. The proof functions named
  `lemma_*` state the laws that relate several calls (undo restores the
  layout, Tab and Shift+Tab undo each other, and so on).
- `tests/` runs the library on concrete values.
- `app/` is the program around it: command line, terminal and drawing,
  reading files, running commands, the polling tasks and the floating-point
  readings (CPU shares, throughput, temperatures).

Calls into `indexmap`, `ratatui`'s layout solver and `serde_json` are made
from `src/` through small trusted wrappers. Their contracts state what the
source of those crates shows of every result, and no more.
