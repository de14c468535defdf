//! Verified core of the Astra drawing canvas: colours, styles, grid styles,
//! text-editing key handling, caret state, PNG metadata framing, export
//! tiling, font registration, least-recently-used render caches, formula
//! segmentation and the small hashing and random-number helpers that the
//! renderer builds on.

pub mod cache;
pub mod caret;
pub mod color;
pub mod error;
pub mod export;
pub mod fonts;
pub mod grid;
pub mod hashing;
pub mod png_meta;
pub mod segments;
pub mod style;
pub mod text_keys;
pub mod tools;

pub use cache::{
    cached_outline, cached_text_layout, store_formula, store_outline, store_text_layout,
    touch_next, CacheKey, MathCacheKey, ShapeCacheKey, TextCacheKey, TouchCache,
    MATH_CACHE_CAPACITY, SHAPE_CACHE_KEEP, SHAPE_CACHE_LIMIT, TEXT_CACHE_CAPACITY,
};
pub use caret::CaretState;
pub use color::{parse_color, SerializableColor};
pub use error::RendererError;
pub use export::{
    cut_spans, export_plan, padded_bytes_per_row, png_render_result, should_embed_metadata,
    stitch_row, unpad_rows, ExportError, ExportPlan, PngRenderResult, MAX_SHAPES_FOR_METADATA, STRIP_HEIGHT,
};
pub use fonts::{decode_if_woff2, FontRegistry, LoadedFonts};
pub use grid::{GridStyle, PreferredGridStyle};
pub use hashing::{fnv_mix, path_element_hash, PathElementBits, SimpleRng};
pub use png_meta::{encode_png, extract_scene_from_png, PNG_SCENE_METADATA_KEY};
pub use segments::{parse_segments, TextSegment};
pub use style::{generate_seed, seed_from_counter, FillPattern, Sloppiness, StrokeStyle};
pub use text_keys::{
    key_effects, plan_key, EditCommand, KeyAction, KeyEffects, Motion, TextEditResult, TextKey,
    TextModifiers,
};
pub use tools::{created_shape, ShapeKind, ToolKind, ToolSession};
