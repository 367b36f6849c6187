# Asterism engine core

The runtime core of the Asterism visual-novel engine, written in Verus: the
decisions the engine takes are proved against their contracts, while the
window, the GPU, the file system and the font rasteriser stay outside.

- `src/` — the verified library: the typewriter and dialogue flow, input
  mapping with per-key debounce, the command bridge from the script VM to the
  renderer and audio system, the game context and project-loading steps, the
  stage bookkeeping of the renderer, the glyph atlas packer and glyph cache,
  sprite lists and drawing order, texture decoding and row padding, screenshot
  thumbnails, and the run loop's decisions.  Calls into `image` and into std
  go through small trusted wrappers whose contracts are stated next to them.
- `tests/` — scenarios run against the compiled library.
- `app/` — the program around it: command line, project files, winit window,
  wgpu device and frames, cosmic-text layout.
