# crubwm

A tiling window manager for X11, with its logic written in Verus and proved against
its contracts.

- `src/` is the library: reading the config file (keybinds, hooks, settings, workspace
  and bar settings), keys and key bindings, containers and layouts, workspaces, focus
  stacks, monitors, the window manager's state and its answers to X events and keybind
  actions, the status bar's contents, the atoms the window manager uses and the data of
  client messages. Every function has a contract; `src/laws.rs` states the properties
  that relate several operations.
- `app/` is the program around it: command line, config file, logging, the X connection
  (x11rb, Xlib for keysyms) and drawing the bars with cairo. It turns X events into plain
  values for the library and carries out the plans the library returns.
- `tests/` runs the library on concrete values.
