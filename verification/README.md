# Pylon

A terminal emulator with a side panel that shows the sessions of a command-line agent and the
usage of its accounts.

- `src/` is the verified library: the screen and its history, the interpreter of terminal
  output, tabs, keys and selections, the sidebar's layout, what the usage service and the
  session files say, reading from pseudo-terminals, and the places of glyphs. What each
  function does stands in its contract; what holds between functions stands in public proof
  functions next to them.
- `tests/` runs the library.
- `app/` is the program around it: windows, processes, files, the network and whatever is
  computed in floating point.
- `extras/cell.metal` holds the shaders.

The environment variable `PYLON_TOOL` has to name the agent's command, whose directory, sessions
and keychain entries the program reads. Without it, no session and no usage is found.
