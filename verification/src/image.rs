//! Prompts and sizes for image generation requests.

use vstd::prelude::*;

verus! {

/// Image data as bytes.
pub type Data = Vec<u8>;

/// A prompt for image generation: a text description plus optional
/// guide images.
#[derive(Debug, Clone)]
pub struct Prompt {
    /// The text description for the image generation.
    pub text: String,
    /// Optional images to guide the generation process.
    pub image: Vec<Data>,
}

impl Prompt {
    /// Creates a new `Prompt` with the given text and no guide images.
    pub fn new(text: &str) -> (p: Prompt)
        ensures
            p.text@ == text@,
            p.image@ =~= Seq::<Data>::empty(),
    {
        Prompt { text: text.to_owned(), image: Vec::new() }
    }

    /// Adds an image to the prompt and returns the updated `Prompt`.
    #[must_use]
    pub fn with_image(self, image: Data) -> (p: Prompt)
        ensures
            p.text == self.text,
            p.image@ == self.image@.push(image),
    {
        let mut p = self;
        p.image.push(image);
        p
    }
}

/// The size (width and height) of an image, in pixels.
#[derive(Debug, Clone, Copy, PartialEq, Eq, Structural)]
pub struct Size {
    /// The width of the image in pixels.
    pub width: u32,
    /// The height of the image in pixels.
    pub height: u32,
}

impl Size {
    /// Creates a new `Size` with the given width and height.
    #[must_use]
    pub fn new(width: u32, height: u32) -> (s: Size)
        ensures
            s.width == width,
            s.height == height,
    {
        Size { width, height }
    }

    /// Creates a new `Size` with equal width and height (a square).
    #[must_use]
    pub fn square(size: u32) -> (s: Size)
        ensures
            s.width == size,
            s.height == size,
    {
        Size { width: size, height: size }
    }
}

} // verus!
