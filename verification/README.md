# suede

The decisions behind a video wall: which commands bring the outputs of a Wayland
compositor to a desired state, and when and from where each projector of a wall is
given its next frame. The library is written in Verus. Every contract in `src/` is
proved but for two that are trusted: `quoted` in `src/reconciler/plan.rs`, which
quotes a text as the standard library's `Debug` does, and the one given to
`String::push` in `src/text.rs`.

- `src/config.rs`, `src/model.rs`, `src/names.rs`, `src/text.rs`, `src/reals.rs`: what
  is configured, what is observed, and the values that both are made of. Numbers
  with a fraction are carried by their bits and are compared, never computed with.
- `src/projection_policy.rs`: whether geometric correction is in force, and which
  saved settings an edit leaves alone.
- `src/reconciler/`: one pass over desired and observed state: the plan for the
  outputs, the canvas, the apps and their sinks, adoption of settled values, and the
  report of the pass.
- `src/projection/`: the slicer: what keeps the outputs in step, the buffers
  and timing of each, the counters that are reported, live edits of the geometry,
  the choice of renderer, the shading of pixels, and the moving test pattern.
- The modules that end in `_laws` state what holds across several functions.

`tests/` runs the library on concrete values. `app/` is ordinary Rust: the sockets,
processes, files and threads around the library, and all floating-point arithmetic.
