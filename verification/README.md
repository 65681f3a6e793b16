# Gallium

A tiling window manager for X (tall and full-screen layouts, gaps and
padding, workspaces, configurable key bindings), split in two:

- `src/` is the verified library. It holds every decision the window
  manager makes: the ring arithmetic for stepping through windows and
  workspaces (`cycle`), the deck of cards with a current position (`deck`),
  key chords and modifiers (`key`), the configuration and its defaults
  (`config`), the layouts and their geometry (`layout`), workspaces and the
  window manager (`window_manager`), the requests it sends to the X server
  (`xserver`), and what each X event and key message does (`gallium`).
  Each public function states its result in its contract, and the laws of
  the library (columns that tile, steps that undo each other, decks that stay
  sound) are proof functions.
- `app/` is the program around it: the X connection, the configuration file,
  logging, and the event loop that carries out the steps the library returns.
