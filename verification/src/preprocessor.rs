//! The preprocessor as a book tool sees it: its name and the renderers it
//! works for. What it does to a chapter is [`crate::markdown::preprocess`].

use vstd::prelude::*;
use vstd::string::*;
use crate::text::same_text;

verus! {

/// The name under which the preprocessor is known to the book tool.
pub const PREPROCESSOR_NAME: &'static str = "image-size-preprocessor";

/// The one renderer that the preprocessor does not work for.
pub const UNSUPPORTED_RENDERER: &'static str = "not-supported";

/// An image-size preprocessor.
#[derive(Default, Debug, Clone, Copy, PartialEq, Eq, Structural)]
pub struct ImageSize;

impl ImageSize {
    /// A new preprocessor.
    pub fn new() -> (preprocessor: ImageSize)
        ensures
            preprocessor == ImageSize,
    {
        ImageSize
    }

    /// The preprocessor's name.
    pub fn name(&self) -> (name: &'static str)
        ensures
            name@ == PREPROCESSOR_NAME@,
    {
        PREPROCESSOR_NAME
    }

    /// Whether the preprocessor works for a renderer: for every one but
    /// [`UNSUPPORTED_RENDERER`].
    pub fn supports_renderer(&self, renderer: &str) -> (supported: bool)
        ensures
            supported == (renderer@ != UNSUPPORTED_RENDERER@),
    {
        !same_text(renderer, UNSUPPORTED_RENDERER)
    }
}

} // verus!
