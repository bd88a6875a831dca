# Rooq core

Rooq is a lightweight file previewer (images, PDF, text/code, Markdown,
video thumbnails). This crate holds the parts of it that decide things, each
verified with Verus against a contract; the window, the Explorer daemon and
everything that touches files, processes or the GPU live in `app/`.

* `src/dispatcher.rs` – routing a file by its leading bytes (via `infer`),
  falling back to its extension.
* `src/image.rs`, `src/pixels.rs` – JPEG/PNG/GIF decoding to RGBA8 through
  zune-jpeg, zune-png and `image`, with the channel expansion proved.
* `src/text.rs` – BOM detection, encoding guess (chardetng) and decoding
  (encoding_rs), and the "binary file" rule.
* `src/pdf.rs` – the least-recently-used cache of rendered PDF pages; no
  document ever holds more than its first six pages.
* `src/request_gen.rs` – request generations that make stale results
  recognisable.
* `src/subprocess.rs` – locating companion executables, their command
  lines, waiting for them and reporting how they ended, and naming their
  one-shot output files.
* `src/highlight.rs` – grammar selection by extension and tree-sitter
  highlighting through syntastica (One Dark theme).
* `src/hotkey.rs` – which keyboard-hook events toggle the preview.
* `src/daemon.rs` – the Explorer daemon's step function (Space opens a
  preview of the selected file, Space again closes it), with the law that at
  most one preview window is open.
* `src/preview.rs` – PDF paging and animation stepping.
* `src/text_ops.rs` – string helpers (case-insensitive comparison, decimal
  rendering, joining).
