# rurix_render

Verified core of the renderer's runtime decisions, written in Verus.

- `capability_matrix` — fail-closed degradation of the six feature chains
  (upscale, hzb, restir, gi, framegen, texture sampling) and of the particles
  chain against probed device facts; canonical decision text and its digest.
- `display` — swapchain paths and their legal encodings, the path switch log,
  HDR calibration registration, the view transform registry, the
  post-processing stage order, and the hair tiers / strand replacement bake.
- `bytes`, `text`, `digest`, `report`, `calendar` — little-endian packing and
  byte search, decimal and joined text, SHA-256 and hex, JSON escaping and
  field reading, UTC timestamps.

`app/` holds what the verifier cannot hold: the floating-point view
transforms (ACES 1.3, ACES 2.0, AgX, neutral), colour science, output
encoding, post-processing, skin and hair shading values, and the clock.
