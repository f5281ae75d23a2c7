# shoestring_wm

The rules of a small Wayland window manager, written in Verus: floating windows
and half-tile snaps, numbered workspaces, several outputs, a JSON socket, screen
capture behind a gate, session locking, gamma ramps, cursors and a diagnostics
panel.

- `src/` is the library. It owns the state (`state::ShoestringWm`, and
  `backend::udev::UdevData` for graphics cards) and decides; it draws nothing and
  talks to nobody. Windows, outputs, surfaces and connections are numbers, numbers
  with a fraction are carried as bits. A method takes what has happened, changes
  the state and returns what is to be done. Each says in `ensures` what follows
  for every input, and the `law_*` proof functions say what holds across calls.
- `app/` is the compositor around it: Smithay, the event loop, files, sockets,
  processes and everything in floating point.
- `tests/` runs the library on concrete values.

Where the library leans on code that is not proved, a small function says what it
relies on: `regex` for window filters, `xcursor` for cursor files, and a few
functions of the standard library.
