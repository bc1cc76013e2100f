//! Verified HTML syntax-highlight rendering.
//!
//! The crate turns the event stream of an external syntax-highlighting
//! engine into an HTML table, one row per source line, styled through a
//! user-supplied color theme.  The attribute-to-style resolution, the
//! per-language configuration cache, the line serialization and the
//! stylesheet generation are verified; the engine itself is an external
//! collaborator reached through a handful of trusted wrappers.

pub mod cache;
pub mod catalog;
pub mod engine;
pub mod events;
pub mod renderer;
pub mod resolver;
pub mod serializer;
pub mod stylesheet;
pub mod theme;

pub use cache::ConfigCache;
pub use catalog::ATTRIBUTE_COUNT;
pub use engine::Lang;
pub use events::HighlightEvent;
pub use renderer::{RenderError, Renderer};
pub use resolver::DecorationMode;
pub use theme::{Style, Theme};
