# Snapdragin

A Windows tray utility that snaps a dragged window onto the cells of a monitor grid:
while dragging a window with the left button, a right click shows a grid overlay on the
monitor under the pointer, moving selects a block of cells, and a second right click (or
releasing the left button) moves and resizes the window onto that block.

## Layout

- `src/` is the library, written in Verus and verified: grid geometry and selection
  tracking, the drag state machine of the mouse hook, the settings file format and its
  round trip, color settings, overlay rendering, the settings window's decisions, and the
  small conversions between Win32 message words, DPI-scaled lengths and UTF-16 text.
  Public proof functions (`lemma_*`) state the properties that hold across calls.
- `tests/` exercises the library on concrete values.
- `app/` is the Windows program around it: the message loop, the low-level mouse hook,
  the layered overlay window, the tray icon, the settings window, file I/O and the
  startup shortcut. It asks the library for every decision and performs the effects the
  library returns.
