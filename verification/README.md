# qd-varallax

The core of a retained/immediate-mode GUI toolkit, written in Verus.

`src/` is the verified library:

- `types::slot_model`, `types::gen_vector`, `types::genelational_vector` — generational
  slot vectors: handles carry the generation of their slot, so a handle to a removed
  value never reaches a value stored later in the same slot. The laws of insertion and
  removal are proved over the shared model.
- `types::color` — 8-bit colors: named colors, `0xRRGGBB(AA)` literals, HTML hex
  strings, channel swaps and layouts, printing as `#RRGGBBAA`.
- `types::texture` — pixel buffers to and from raw bytes, channel maps.
- `types::render_commands`, `vx_core::renderer` — draw lines, the stable sort by depth
  and module, batching of consecutive draw lines, packing of vertex batches into one
  vertex and one index buffer.
- `painter::painter` — depth assignment to the batches painted since the last one.
- `vx_core::dirty_queue`, `vx_core::scene`, `abstractions` — dirty marks of widgets
  (kept in an `ahash` map), the dirty check of a scene, hit testing by depth, mouse
  moves (leave, enter, move) and presses, event bubbling up the parent chain, the
  scene's widget table (registration of widget trees in the top-level, immediate and
  hierarchical-index lists, parent and child links, the spatial index of each widget,
  and the set of indexes that relaid-out widgets refresh), the redraw and frame steps
  of a window, and closing windows.
- `vx_core::signal`, `vx_core::tex_registry`, `widgets` — handler storage of signals,
  the texture registry, the button state machine, message box results.

`app/` is the program around the library: signals shared through `Rc<RefCell<..>>` or
`Arc<Mutex<..>>`, the dirty-mark sender closure, `f32` colors, images and textures.

`tests/` exercises the library on concrete values.
