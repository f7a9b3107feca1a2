//! Duplicate detection: is a new capture the same as the latest saved one?

use crate::image_buffer::{image_dimensions, image_samples, pixel_of, DecodedImage};
use vstd::prelude::*;

verus! {

/// `a` and `b` have the same size and the same value in every channel of every
/// pixel.
pub open spec fn same_content(a: DecodedImage, b: DecodedImage) -> bool {
    let (w, h) = image_dimensions(a);
    &&& image_dimensions(a) == image_dimensions(b)
    &&& forall|x: int, y: int|
        0 <= x < w && 0 <= y < h ==> #[trigger] pixel_of(image_samples(a), w, x, y) == pixel_of(
            image_samples(b),
            w,
            x,
            y,
        )
}

/// Images that differ in one channel of one pixel inside the grid, wherever
/// it lies, are not the same.
pub proof fn lemma_one_pixel_differs(a: DecodedImage, b: DecodedImage, x: int, y: int)
    requires
        image_dimensions(a) == image_dimensions(b),
        0 <= x < image_dimensions(a).0,
        0 <= y < image_dimensions(a).1,
        pixel_of(image_samples(a), image_dimensions(a).0, x, y) != pixel_of(
            image_samples(b),
            image_dimensions(a).0,
            x,
            y,
        ),
    ensures
        !same_content(a, b),
{
}

/// Whether two images have equal dimensions and equal pixels, compared exactly.
/// The comparison stops at the first pixel that differs.
pub fn image_content_is_equal(image_a: &DecodedImage, image_b: &DecodedImage) -> (r: bool)
    ensures
        r == same_content(*image_a, *image_b),
{
    let (width, height) = image_a.dimensions();
    let (width_b, height_b) = image_b.dimensions();
    if width != width_b || height != height_b {
        return false;
    }
    let mut y: u32 = 0;
    while y < height
        invariant
            (width, height) == image_dimensions(*image_a),
            image_dimensions(*image_a) == image_dimensions(*image_b),
            y <= height,
            forall|xx: int, yy: int|
                0 <= xx < width && 0 <= yy < y ==> #[trigger] pixel_of(
                    image_samples(*image_a),
                    width,
                    xx,
                    yy,
                ) == pixel_of(image_samples(*image_b), width, xx, yy),
        decreases height - y,
    {
        let mut x: u32 = 0;
        while x < width
            invariant
                (width, height) == image_dimensions(*image_a),
            image_dimensions(*image_a) == image_dimensions(*image_b),
                y < height,
                x <= width,
                forall|xx: int, yy: int|
                    0 <= xx < width && (0 <= yy < y || (yy == y && 0 <= xx < x))
                        ==> #[trigger] pixel_of(image_samples(*image_a), width, xx, yy)
                        == pixel_of(image_samples(*image_b), width, xx, yy),
            decreases width - x,
        {
            let (ra, ga, ba) = image_a.pixel(x, y);
            let (rb, gb, bb) = image_b.pixel(x, y);
            if ra != rb || ga != gb || ba != bb {
                return false;
            }
            x = x + 1;
        }
        y = y + 1;
    }
    true
}

impl DecodedImage {
    /// Whether a saved image whose header gives `width`, `height` and
    /// `is_rgb8` (8-bit RGB samples) could hold the same picture as `self`:
    /// only then is it worth decoding in full.
    pub fn matches_header(&self, width: u32, height: u32, is_rgb8: bool) -> (r: bool)
        ensures
            r == (is_rgb8 && image_dimensions(*self) == (width, height)),
    {
        let (own_width, own_height) = self.dimensions();
        is_rgb8 && own_width == width && own_height == height
    }
}

/// What a captured image can be asked about the screenshot archive.
pub trait ImageExtensions: Sized {
    /// `self` and `other` show the same picture.
    spec fn same_picture(&self, other: &Self) -> bool;

    /// Whether `self` is the same picture as `last`, the most recently saved
    /// screenshot; `None` when there is none, or it could not be read.
    fn is_same_as_last_screenshot(&self, last: Option<&Self>) -> (r: bool)
        ensures
            r == (last is Some && self.same_picture(last.unwrap())),
            last is None ==> !r,
    ;
}

impl ImageExtensions for DecodedImage {
    open spec fn same_picture(&self, other: &Self) -> bool {
        same_content(*self, *other)
    }

    fn is_same_as_last_screenshot(&self, last: Option<&DecodedImage>) -> (r: bool) {
        match last {
            Some(last) => image_content_is_equal(self, last),
            None => false,
        }
    }
}

/// Index of the newest file among files whose creation times are given, in
/// nanoseconds after the Unix epoch; a time at or before the epoch reads 0.
///
/// Only times after the epoch count, and of equal times the first one wins.
/// `None` when no time counts, in particular for an empty directory.
pub fn newest_file_in_dir(created: &[u128]) -> (r: Option<usize>)
    ensures
        created@.len() == 0 ==> r is None,
        r is None <==> forall|j: int| 0 <= j < created@.len() ==> created@[j] == 0,
        r matches Some(i) ==> {
            &&& i < created@.len()
            &&& created@[i as int] > 0
            &&& forall|j: int| 0 <= j < created@.len() ==> created@[j] <= created@[i as int]
            &&& forall|j: int| 0 <= j < i ==> created@[j] < created@[i as int]
        },
{
    let mut newest: Option<usize> = None;
    let mut newest_time: u128 = 0;
    let mut k: usize = 0;
    while k < created.len()
        invariant
            k <= created@.len(),
            newest is None ==> newest_time == 0,
            newest is None <==> forall|j: int| 0 <= j < k ==> created@[j] == 0,
            newest matches Some(i) ==> {
                &&& i < k
                &&& created@[i as int] == newest_time
                &&& newest_time > 0
                &&& forall|j: int| 0 <= j < k ==> created@[j] <= newest_time
                &&& forall|j: int| 0 <= j < i ==> created@[j] < newest_time
            },
        decreases created@.len() - k,
    {
        if created[k] > newest_time {
            newest = Some(k);
            newest_time = created[k];
        }
        k = k + 1;
    }
    newest
}

} // verus!
