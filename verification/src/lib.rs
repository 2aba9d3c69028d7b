//! rustpress: a documentation site generator speaking VitePress's content
//! format. This crate holds the verified core: configuration model,
//! content/URL mapping, sidebar resolution, markdown preprocessing and
//! the code-block renderer's text logic.

pub mod text;
pub mod markdown;
pub mod content;
pub mod config;
pub mod sidebar;
pub mod render;
pub mod palettes;
pub mod theme_assets;
pub mod parity;
pub mod serve;
pub mod landmarks;
