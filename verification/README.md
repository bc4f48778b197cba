# lora

Lora runs games written in Lua on a GPU renderer (wgpu), a window (winit)
and a 2D physics engine (rapier2d). A game is either a folder with a
`main.lua` (and, optionally, a `lora.json` manifest with its `name` and
`id`) or a compiled `.lora` archive of such a folder.

- `src/` is the library, verified with Verus:
  - `archive`: the `.lora` format: writing and reading its fields, building
    an archive, and reading one back, with the proof that reading gives
    back what was written;
  - `files`: the table of a game's asset files and the `Filer` that holds a
    loaded game, loaded from a folder's listing or from an archive;
  - `folder`: what a folder's listing makes: the game to run (its Lua
    source, its name and id, its assets) or its archive, with the proofs
    that a folder loads exactly when its `main.lua` and `lora.json` can be
    read, and that its archive reads back as the game the folder loads;
  - `detect`: recognising `main.lua` and `.lora` files and game folders;
  - `manifest`: a game's name and id from its manifest, checked against
    the manifest schema;
  - `clock`: the fixed-step schedule of the physics world;
  - `ids`: the ids handed out for shapes, colliders, spawners, borders and
    objects;
  - `input`: held keys and mouse button numbers, with the proof that a key
    is held exactly when its last event was a press;
  - `protocol`: the calls between the main thread and the Lua thread;
  - `spawn`: shape outlines and the physics body of a spawned object;
  - `texture`: decoding image assets to RGBA pixels.
- `app/` is the program: command line, walking folders and reading files,
  window, GPU, physics, the Lua interpreter and the shaders.
- `tests/` runs the library on concrete values.
