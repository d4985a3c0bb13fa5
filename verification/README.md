# rusticle

A GIF processing library whose logic is verified with Verus: decoding with
canvas compositing and disposal, structural frame optimization (exact and
lossy), the canonical sequence model used by adaptive encoding (pre-draw,
displayed and post-disposal canvases, changed regions, source patches),
candidate generation and materialization, the analysis kernels, and the
routing and palette policies.

Layout:

- `src/` — the verified library. Every function carries a contract over
  mathematical models (`Seq`, `int`, views of the data types); the laws that
  relate several functions are public proof functions (`law_*`).
- `tests/` — the library's tests.
- `app/` — what the library cannot hold: reading from streams, conversions
  to `image::RgbaImage`, the
  floating-point metrics (profiles, routing features, PSNR/SSIM/Butteraugli)
  and serde forms of the library's enums. It calls the verified rules and
  kernels for every decision that does not need a float.

Outside crates: `gif` (decoding), `rayon` (parallel frame optimization)
and `imagequant` (palette derivation) are called from `src/` through small
trusted wrappers; `image`, `butteraugli`, `serde` and `thiserror` are used
by `app/`.
