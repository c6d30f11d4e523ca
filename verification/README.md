# friendly-filer

A TRON-styled first-person file manager for the terminal: files of the
current directory are enemies, subfolders are portals, and the player throws
an identity disc to pick a target for an operation menu.

This crate is its simulation layer, verified with Verus:

- `config` — configuration shape and defaults.
- `enemy` — file classification by extension and hit points by size.
- `input` — the held-key tracker and the per-frame input snapshot.
- `portal` — the dangerous-path guard that seals portals.
- `scene` — the arena's tile grid (a `termray::GridMap`) and the placement
  of files on it by a hash of their names.
- `demo` — drawing of the demo frame into a `termray::Framebuffer`.
- `disc`, `hud`, `menu`, `player`, `palette` — small state types.

`app/` holds the terminal program: the frame loop, terminal I/O, the
floating-point physics and poses, and the termray texture adapters.
