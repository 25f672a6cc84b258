//! A verified static-site content pipeline: it turns Markdown content files
//! with structured front matter into fully derived page records (routing
//! path, canonical URL, reading time, social-share links), orders them into
//! collections, and prepares rendered buffers for an output tree, minifying
//! HTML targets.

pub mod collection;
pub mod encode;
pub mod matter;
pub mod output;
pub mod paths;
pub mod post;
pub mod text;
