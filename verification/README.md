# engine

The scene side of a small signed-distance-function renderer. Every game
object carries a constructive solid geometry tree (unions, intersections
and subtractions of leaf shapes); once a frame the trees are flattened into
two GPU buffers that a fragment shader ray marches.

- `src/` is the verified library:
  - `object_tree`: the trees, their flattening (`build_render_tree`) and its
    exact specification;
  - `flat_tree_laws`: proofs that the flat buffers hold every tree whole
    and that all their links are sound;
  - `gpu_structs`, `gpu_buffers`: the integer GPU structs and the bytes of
    the syntax tree buffer and the leaf buffer's header;
  - `scene`: the scene's game objects and how their update commands (kill,
    spawn) are carried out;
  - `input`, `surface`: the renderer's decisions on key and mouse presses,
    window resizes and frame acquisition.
- `app/` is the program around it: window, GPU setup and drawing, the shader,
  the floating point game objects, camera and leaf shapes.
- `tests/` exercises the library.
