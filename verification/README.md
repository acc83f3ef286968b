# germinal_infra

The rendering core of a GPU terminal, written in Verus: the parts that decide
what is drawn and where, each with a contract that Verus proves.

## Layout

- `src/` — the verified library.
  - Text: `text_shaping` (segments a line into glyph runs, with ligatures and
    shaped clusters), `text_chars`, `terminal_cells` (a terminal grid's cells
    into lines and styled runs), `text_surface` (text surfaces built from
    frame plans, one per render target).
  - Glyphs: `glyph_key`, `glyph_atlas`, `atlas_layout`, `atlas_segments`,
    `raster_atlas`, `debug_font`, `debug_glyph_atlas`, `glyph_pixels`,
    `glyph_atlas_frame`, `glyph_atlas_texture`, `font_metrics`.
  - Frames: `snapshot_frame_plan`, `render_surface`, `renderer_backend`
    (surface snapshots into draw rows and quads), `quad_plan`, `render_plan`,
    `command_plan`, `retained_frame`, `frame_geometry`, `pipeline_specs`.
  - Windows: `window_schedule` (redraw deadlines, IME cursor area),
    `tab_bar`, `video_surface_registry`, `pane_plugin`, `timing`,
    `snapshot_repository`, `colors`, `ids`, `terminal_grid`.
- `tests/` — tests that run the library with the outside crates linked.
- `app/` — the glue that Verus does not see: time and duration adapters,
  serde-based storage, and the floating-point parts of the GPU upload.

Outside crates reached from `src/` (unicode normalization, segmentation and
width) are called through small trusted wrappers whose contracts name what
they return; everything built on them is proved.
