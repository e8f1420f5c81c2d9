//! Extraction of `@`-tags from single-line `//` comments.
//!
//! A line such as `// @FIXME(ana): tidy this` gives a [`Tag`] with the tag
//! `FIXME`, the name `ana` and the message `tidy this`.
pub mod laws;
pub mod pattern;
pub mod report;
pub mod tag;
pub mod text;

pub use report::format_tag;
pub use tag::{extract_tags, parse_line, Tag};
