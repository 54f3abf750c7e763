# webgame

Logic of a small tile-based browser game, verified with Verus.

- `src/animation.rs`: the animation table (looping animations and
  transitions per entity and state) and the animated sprite, modelled by
  `AnimatedView`, with proofs of how frames advance.
- `src/tgl.rs`: drawing layers and the text alignment/baseline codes that
  the page's renderer looks up, and the renderer handle.
- `src/audio.rs`: sound and music handles and the requests they send to the
  page's audio player.
- `app/`: the browser program (Emscripten main loop, winit input, JavaScript
  calls through stdweb, floating-point frame timing).
