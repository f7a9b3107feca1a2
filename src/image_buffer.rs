//! The decoded RGB image: an `image` crate buffer, as the rest of the library
//! sees it.

use vstd::prelude::*;

verus! {

/// A dense grid of 8-bit RGB pixels, row-major from the top-left corner.
///
/// The buffer itself belongs to the `image` crate; the library reads it only
/// through `image_samples` and `image_dimensions`.
#[verifier::external_body]
pub struct DecodedImage {
    buffer: image::RgbImage,
}

/// The samples held by an image, three (red, green, blue) per pixel, row by
/// row from the top-left corner.
pub uninterp spec fn image_samples(img: DecodedImage) -> Seq<u8>;

/// The width and height an image was made with.
pub uninterp spec fn image_dimensions(img: DecodedImage) -> (u32, u32);

/// Number of samples that an image of the given size holds.
pub open spec fn sample_count(width: u32, height: u32) -> int {
    3 * (width as int) * (height as int)
}

/// Index of the first sample of pixel `(x, y)` in an image `width` pixels wide.
pub open spec fn sample_index(width: u32, x: int, y: int) -> int {
    3 * (y * (width as int) + x)
}

/// The red, green and blue samples of pixel `(x, y)`.
pub open spec fn pixel_of(samples: Seq<u8>, width: u32, x: int, y: int) -> (u8, u8, u8) {
    let i = sample_index(width, x, y);
    (samples[i], samples[i + 1], samples[i + 2])
}

/// Every sample of a pixel inside the image lies inside the sample count.
pub proof fn lemma_pixel_in_bounds(width: u32, height: u32, x: int, y: int)
    requires
        0 <= x < width,
        0 <= y < height,
    ensures
        0 <= sample_index(width, x, y),
        sample_index(width, x, y) + 3 <= sample_count(width, height),
{
    assert(3 * (y * (width as int) + x) + 3 <= 3 * (width as int) * (height as int))
        by (nonlinear_arith)
        requires
            0 <= x < width,
            0 <= y < height,
    ;
    assert(0 <= y * (width as int)) by (nonlinear_arith)
        requires
            0 <= y,
    ;
}

fn pixel_index(width: u32, height: u32, x: u32, y: u32) -> (r: usize)
    requires
        x < width,
        y < height,
        sample_count(width, height) <= usize::MAX,
    ensures
        r == sample_index(width, x as int, y as int),
        r + 3 <= sample_count(width, height),
{
    proof {
        lemma_pixel_in_bounds(width, height, x as int, y as int);
    }
    3 * (y as usize * width as usize + x as usize)
}

impl DecodedImage {
    /// Relies on `ImageBuffer::from_raw`: it keeps the container as the
    /// image's samples, and returns `None` exactly when the container holds
    /// fewer than three samples for each of the `width * height` pixels.
    #[verifier::external_body]
    fn wrap_raw(width: u32, height: u32, samples: Vec<u8>) -> (r: Option<DecodedImage>)
        ensures
            r.is_some() <==> sample_count(width, height) <= samples@.len(),
            r.is_some() ==> image_samples(r.unwrap()) == samples@,
            r.is_some() ==> image_dimensions(r.unwrap()) == (width, height),
    {
        image::RgbImage::from_raw(width, height, samples).map(|buffer| DecodedImage { buffer })
    }

    /// Relies on `ImageBuffer::dimensions`: the width and height the buffer
    /// was made with.
    #[verifier::external_body]
    fn buffer_dimensions(&self) -> (r: (u32, u32))
        ensures
            r == image_dimensions(*self),
    {
        self.buffer.dimensions()
    }

    /// Relies on `ImageBuffer::as_raw`: the container the buffer was made
    /// from. Buffers here come only from `ImageBuffer::from_raw`, which
    /// refuses a container too short for every pixel.
    #[verifier::external_body]
    fn buffer_samples(&self) -> (r: &Vec<u8>)
        ensures
            r@ == image_samples(*self),
            sample_count(image_dimensions(*self).0, image_dimensions(*self).1) <= r@.len(),
    {
        self.buffer.as_raw()
    }

    /// Makes an image of the given size from its samples, three per pixel,
    /// row by row; `None` when there are fewer samples than pixels need.
    pub fn from_samples(width: u32, height: u32, samples: Vec<u8>) -> (r: Option<DecodedImage>)
        ensures
            r.is_some() <==> sample_count(width, height) <= samples@.len(),
            r.is_some() ==> image_samples(r.unwrap()) == samples@,
            r.is_some() ==> image_dimensions(r.unwrap()) == (width, height),
    {
        Self::wrap_raw(width, height, samples)
    }

    /// The image's width and height.
    pub fn dimensions(&self) -> (r: (u32, u32))
        ensures
            r == image_dimensions(*self),
    {
        self.buffer_dimensions()
    }

    /// The image's samples, three per pixel, row by row.
    pub fn samples(&self) -> (r: &[u8])
        ensures
            r@ == image_samples(*self),
            sample_count(image_dimensions(*self).0, image_dimensions(*self).1) <= r@.len(),
    {
        self.buffer_samples().as_slice()
    }

    /// The red, green and blue values of the pixel at column `x`, row `y`.
    pub fn pixel(&self, x: u32, y: u32) -> (r: (u8, u8, u8))
        requires
            x < image_dimensions(*self).0,
            y < image_dimensions(*self).1,
        ensures
            r == pixel_of(image_samples(*self), image_dimensions(*self).0, x as int, y as int),
    {
        let (width, height) = self.buffer_dimensions();
        let samples = self.buffer_samples();
        let len = samples.len();
        let i = pixel_index(width, height, x, y);
        (samples[i], samples[i + 1], samples[i + 2])
    }
}

} // verus!
