# noperson

The logic of a face-swap program that runs on the GPU, as a verified library: what is asked of an
engine and whether it can be built, which generation of an engine renders a frame, what an editor
session holds, and what its files say.

## Layout

- `src/engine`: specifications of engines and their rules, the supervisor that exchanges one
  generation for the next and goes back where it fails, and the queue of builds.
- `src/controls.rs`, `src/bridge`: the controls of the editor, and the engine requests that are
  made of them.
- `src/media.rs`, `src/faces.rs`, `src/embeddings.rs`, `src/timeline.rs`, `src/viewport.rs`: what
  an editor session holds.
- `src/workspace`: workspaces as documents, read and written, with the law that what is written
  reads back.
- `src/session`: the editor session as a whole.
- `src/live.rs`, `src/headless.rs`, `src/worker.rs`, `src/runtime.rs`, `src/recording.rs`,
  `src/preview.rs`: live sessions, files that are processed without a window, and the decisions of
  the threads that work for them.
- `src/backend.rs`, `src/gpu.rs`, `src/npp.rs`, `src/kernel_manifest.rs`: what a build and a device
  can do, the shapes of launches, and the inventory of kernels.
- `src/text.rs`, `src/paths.rs`, `src/number.rs`, `src/ordered.rs`, `src/json.rs`, `src/search.rs`,
  `src/trace.rs`, `src/reports.rs`: the ground the rest stands on.
- `app`: windows, files, threads and devices around the library. The face pipeline and the codecs
  come in through the traits of `app/engine.rs`.

## Numbers

The library holds floating-point numbers by their bit patterns and compares them exactly.
Arithmetic on them comes in from outside, as functions.
