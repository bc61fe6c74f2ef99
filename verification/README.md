# Skalora

A small 2D game engine built on an Entity-Component-System design.

`src/` is the engine core, verified with Verus:

- `components::component_store` — one column of optional components per
  component kind, indexed by entity id; adding, reading, removing components and
  removing whole entities.
- `entities` — entity handles and the id allocator, which reuses freed ids
  (most recently freed first).
- `resources` — the resource store (one resource per kind), collision events,
  and the texture registry.
- `systems` — the ordered system list and the system trait, keyboard and
  mouse-button state, pairwise collision reporting, main-camera selection,
  player movement direction.
- `systems::render_system` — the index lists of the drawn primitives, and
  which entities get new GPU buffers and which only have their vertices rewritten.
- `frame_clock` — the fixed-timestep schedule of the main loop.
- `world` — the world (stores, systems, frame-rate counter, title settings)
  and the view of it that a system works on.

Component, resource and system types are filed under numeric kind keys.

`app/` is the windowed program: window and event loop (winit), GPU rendering
(wgpu), image loading, and everything that computes with floating point
(transforms, camera matrices, box overlap tests, movement by velocity and by
player input).
