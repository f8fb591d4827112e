# vitobar

A status bar for the niri Wayland compositor, with an app launcher, a greetd
greeter and a settings window.

- `src/` is the library, written in Verus: theme and palette parsing, the
  choice of colors, the widgets' data (media players, weather, network
  rates), desktop entries, the tray's bookkeeping, taskbar and workspace
  ordering, the launcher's and the greeter's state machines, the greetd wire
  framing, the readings shown by the settings pages and the icon cache. Each
  public function states what it returns in its contract, and the laws that
  tie the functions together are public proof functions beside them.
- `app/` is the program around it: Wayland surfaces, drawing, fonts, D-Bus,
  the compositor's IPC socket, processes, files and threads.
- `tests/` runs the library on concrete values.
