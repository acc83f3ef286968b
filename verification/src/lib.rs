//! Verified core of the terminal rendering infrastructure: glyph keys, glyph
//! atlas layout and packing, text segmentation for shaping, render-pass and
//! command plans, and the small geometry and timing rules of the renderer.

pub mod atlas_layout;
pub mod atlas_segments;
pub mod colors;
pub mod command_plan;
pub mod debug_font;
pub mod decimal;
pub mod debug_glyph_atlas;
pub mod font_metrics;
pub mod frame_geometry;
pub mod frame_layers;
pub mod glyph_atlas;
pub mod glyph_atlas_frame;
pub mod glyph_atlas_texture;
pub mod glyph_pixels;
pub mod glyph_key;
pub mod ids;
pub mod pane_plugin;
pub mod pipeline_specs;
pub mod quad_plan;
pub mod raster_atlas;
pub mod render_plan;
pub mod render_surface;
pub mod renderer_backend;
pub mod retained_frame;
pub mod snapshot_frame_plan;
pub mod snapshot_repository;
pub mod tab_bar;
pub mod terminal_cells;
pub mod terminal_grid;
pub mod text_chars;
pub mod text_shaping;
pub mod text_surface;
pub mod timing;
pub mod video_surface_registry;
pub mod window_schedule;
pub mod workspace_present;
