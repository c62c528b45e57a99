//! Derives a style guide (colors, typography, spacing, component samples)
//! from a page's markup and embedded CSS, and renders it as Markdown.

pub mod text;
pub mod patterns;
pub mod model;
pub mod extract;
pub mod page;
pub mod components;
pub mod guide;
pub mod markdown;
pub mod laws;

pub use model::{ColorScheme, ComponentStyle, SpacingSystem, StyleGuide, Typography};
pub use extract::{
    extract_colors_from_css, extract_colors_from_style, extract_spacing_from_css,
    extract_spacing_from_style, extract_typography_from_css, extract_typography_from_style,
};
pub use guide::{extract_colors, extract_components, extract_spacing, extract_styles, extract_typography};
pub use components::{element_style_map, sample_category};
pub use markdown::{generate_markdown, render_markdown};
