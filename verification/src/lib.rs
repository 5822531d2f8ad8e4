//! Rewrites sized image references in Markdown text into literal HTML.
//!
//! A reference such as `![alt](picture.png =800x400 center)` is not an image
//! to a CommonMark renderer, which leaves it as plain text. This library
//! recognizes the notation and replaces each occurrence with an `<img>`
//! element that carries the requested width, height and alignment.

pub mod text;
pub mod specifier;
pub mod html;
pub mod fragment;
pub mod splice;
pub mod recognizer;
pub mod markdown;
pub mod preprocessor;
