//! Decoding of device-independent bitmaps (DIBs) as the clipboard hands them
//! out: a `BITMAPINFOHEADER`, a table of three colour masks, then the pixels.

use crate::image_buffer::{image_dimensions, image_samples, pixel_of, sample_count, DecodedImage};
use vstd::arithmetic::div_mod::lemma_fundamental_div_mod_converse;
use vstd::prelude::*;

verus! {

/// The compression tag of a bit-field-packed bitmap, whose header is followed
/// by an explicit mask for each colour channel.
pub const BI_BITFIELDS: u32 = 3;

/// Length in bytes of a `BITMAPINFOHEADER`.
pub const HEADER_LEN: usize = 40;

/// Length in bytes of the red, green and blue mask table.
pub const MASK_TABLE_LEN: u64 = 12;

/// Errors that can occur whilst converting an image.
#[derive(Debug, PartialEq, Eq, Structural)]
pub enum ConversionError {
    /// No bitmap was handed over, or an empty one.
    NullPointer,
    /// The bitmap uses a compression format other than bit fields.
    UnsupportedCompressionFormat(u32),
    /// The bitmap has a bit depth other than 32 bits per pixel.
    UnsupportedBitDepth(u16),
    /// The buffer ends before the header, the mask table or the declared
    /// pixel data does.
    Truncated,
    /// The declared pixel data does not hold exactly one 4-byte pixel for each
    /// point of the grid, or a colour mask is empty.
    InvalidLayout,
}

/// The little-endian `u16` stored at byte `at`.
pub open spec fn le_u16(b: Seq<u8>, at: int) -> u16 {
    (b[at] as int + 256 * (b[at + 1] as int)) as u16
}

/// The little-endian `u32` stored at byte `at`.
pub open spec fn le_u32(b: Seq<u8>, at: int) -> u32 {
    (b[at] as int + 256 * (b[at + 1] as int) + 65536 * (b[at + 2] as int) + 16777216 * (
    b[at + 3] as int)) as u32
}

/// The little-endian `i32` stored at byte `at`.
pub open spec fn le_i32(b: Seq<u8>, at: int) -> i32 {
    let u = le_u32(b, at);
    if u > i32::MAX {
        (u - 0x1_0000_0000) as i32
    } else {
        u as i32
    }
}

/// The absolute value of `v`.
pub open spec fn abs_u32(v: i32) -> u32 {
    if v < 0 {
        (-(v as int)) as u32
    } else {
        v as u32
    }
}

/// The position of the lowest set bit of `v` at or above bit `i`; 32 when
/// there is none.
pub open spec fn lowest_set_bit_from(v: u32, i: nat) -> nat
    decreases 32 - i,
{
    if i >= 32 {
        32
    } else if (v >> (i as u32)) & 1 == 1 {
        i
    } else {
        lowest_set_bit_from(v, i + 1)
    }
}

/// The number of trailing zero bits of `v`; 32 for zero.
pub open spec fn trailing_zeros(v: u32) -> nat {
    lowest_set_bit_from(v, 0)
}

/// The byte, within a little-endian 4-byte pixel, that a channel mask selects.
pub open spec fn channel_offset(mask: u32) -> nat {
    trailing_zeros(mask) / 8
}

/// `biSize`: the header's declared length, where the mask table starts.
pub open spec fn dib_header_size(b: Seq<u8>) -> u32 {
    le_u32(b, 0)
}

/// `biWidth`, without its sign.
pub open spec fn dib_width(b: Seq<u8>) -> u32 {
    abs_u32(le_i32(b, 4))
}

/// `biHeight`, without its sign.
pub open spec fn dib_height(b: Seq<u8>) -> u32 {
    abs_u32(le_i32(b, 8))
}

/// A positive `biHeight` marks a bitmap whose first stored row is the bottom
/// one.
pub open spec fn dib_bottom_up(b: Seq<u8>) -> bool {
    le_i32(b, 8) > 0
}

/// `biBitCount`.
pub open spec fn dib_bit_count(b: Seq<u8>) -> u16 {
    le_u16(b, 14)
}

/// `biCompression`.
pub open spec fn dib_compression(b: Seq<u8>) -> u32 {
    le_u32(b, 16)
}

/// `biSizeImage`: the declared length of the pixel data.
pub open spec fn dib_image_size(b: Seq<u8>) -> u32 {
    le_u32(b, 20)
}

/// The red, green and blue masks, in that order, at the end of the header.
pub open spec fn dib_mask(b: Seq<u8>, channel: int) -> u32 {
    le_u32(b, dib_header_size(b) + 4 * channel)
}

/// Where the pixel data starts: just after the mask table.
pub open spec fn dib_pixels_start(b: Seq<u8>) -> int {
    dib_header_size(b) + MASK_TABLE_LEN
}

/// The error that decoding `b` meets first, if any.
pub open spec fn dib_error(b: Seq<u8>) -> Option<ConversionError> {
    if b.len() == 0 {
        Some(ConversionError::NullPointer)
    } else if b.len() < HEADER_LEN {
        Some(ConversionError::Truncated)
    } else if dib_compression(b) != BI_BITFIELDS {
        Some(ConversionError::UnsupportedCompressionFormat(dib_compression(b)))
    } else if dib_bit_count(b) != 32 {
        Some(ConversionError::UnsupportedBitDepth(dib_bit_count(b)))
    } else if dib_pixels_start(b) + dib_image_size(b) > b.len() {
        Some(ConversionError::Truncated)
    } else if dib_image_size(b) != 4 * (dib_width(b) as int) * (dib_height(b) as int) || channel_offset(
        dib_mask(b, 0),
    ) > 3 || channel_offset(dib_mask(b, 1)) > 3 || channel_offset(dib_mask(b, 2)) > 3 {
        Some(ConversionError::InvalidLayout)
    } else {
        None
    }
}

/// The stored row that holds row `y` of the top-left-origin image.
pub open spec fn dib_source_row(b: Seq<u8>, y: int) -> int {
    if dib_bottom_up(b) {
        dib_height(b) - 1 - y
    } else {
        y
    }
}

/// Byte `offset` of the stored pixel that shows at column `x`, row `y`.
pub open spec fn dib_byte(b: Seq<u8>, x: int, y: int, offset: nat) -> u8 {
    b[dib_pixels_start(b) + 4 * (dib_source_row(b, y) * dib_width(b) + x) + offset]
}

/// The red, green and blue values of the pixel that shows at column `x`,
/// row `y`, counted from the top-left corner.
pub open spec fn dib_pixel(b: Seq<u8>, x: int, y: int) -> (u8, u8, u8) {
    (
        dib_byte(b, x, y, channel_offset(dib_mask(b, 0))),
        dib_byte(b, x, y, channel_offset(dib_mask(b, 1))),
        dib_byte(b, x, y, channel_offset(dib_mask(b, 2))),
    )
}

/// `img` is the top-left-origin image that the well-formed bitmap `b` shows.
pub open spec fn decodes_to(b: Seq<u8>, img: DecodedImage) -> bool {
    let w = dib_width(b);
    let h = dib_height(b);
    &&& image_dimensions(img) == (w, h)
    &&& image_samples(img).len() == sample_count(w, h)
    &&& forall|x: int, y: int|
        0 <= x < w && 0 <= y < h ==> #[trigger] pixel_of(image_samples(img), w, x, y)
            == dib_pixel(b, x, y)
}

fn read_u16(b: &[u8], at: usize) -> (r: u16)
    requires
        at + 2 <= b@.len(),
    ensures
        r == le_u16(b@, at as int),
{
    b[at] as u16 + 256 * (b[at + 1] as u16)
}

fn read_u32(b: &[u8], at: usize) -> (r: u32)
    requires
        at + 4 <= b@.len(),
    ensures
        r == le_u32(b@, at as int),
{
    b[at] as u32 + 256 * (b[at + 1] as u32) + 65536 * (b[at + 2] as u32) + 16777216 * (
    b[at + 3] as u32)
}

fn read_i32(b: &[u8], at: usize) -> (r: i32)
    requires
        at + 4 <= b@.len(),
    ensures
        r == le_i32(b@, at as int),
{
    let u = read_u32(b, at);
    if u > i32::MAX as u32 {
        (u as i64 - 0x1_0000_0000) as i32
    } else {
        u as i32
    }
}

fn unsigned_abs(v: i32) -> (r: u32)
    ensures
        r == abs_u32(v),
{
    if v < 0 {
        (0i64 - v as i64) as u32
    } else {
        v as u32
    }
}

/// The number of trailing zero bits of `v`; 32 for zero.
pub fn count_trailing_zeros(v: u32) -> (r: u32)
    ensures
        r == trailing_zeros(v),
{
    let mut i: u32 = 0;
    while i < 32 && (v >> i) & 1 == 0
        invariant
            i <= 32,
            lowest_set_bit_from(v, i as nat) == trailing_zeros(v),
        decreases 32 - i,
    {
        i = i + 1;
    }
    proof {
        if i < 32 {
            let bit = (v >> i) & 1;
            assert(bit == 0 || bit == 1) by (bit_vector)
                requires
                    bit == (v >> i) & 1,
            ;
        }
    }
    i
}

/// Reads the subpixel byte order of a device-independent bitmap from its red,
/// green and blue masks.
///
/// E.g. a return value of `(0, 1, 2)` means that the red byte is the first
/// byte, followed by the green, then blue bytes (i.e. RGB subpixel ordering).
/// A little-endian pixel layout is assumed.
pub fn subpixel_ordering(color_masks: [u32; 3]) -> (r: (u32, u32, u32))
    ensures
        r.0 == channel_offset(color_masks[0]),
        r.1 == channel_offset(color_masks[1]),
        r.2 == channel_offset(color_masks[2]),
{
    (
        count_trailing_zeros(color_masks[0]) / 8,
        count_trailing_zeros(color_masks[1]) / 8,
        count_trailing_zeros(color_masks[2]) / 8,
    )
}

/// Cell `(x, y)` of a `w`-wide grid of `h` rows comes before its end.
proof fn lemma_cell_in_grid(w: int, h: int, x: int, y: int)
    requires
        0 <= x < w,
        0 <= y < h,
    ensures
        0 <= y * w,
        y * w + x < w * h,
{
    assert(0 <= y * w) by (nonlinear_arith)
        requires
            0 <= y,
            0 <= w,
    ;
    assert(y * w + x < w * h) by (nonlinear_arith)
        requires
            0 <= x < w,
            0 <= y < h,
    ;
}

/// Cells are numbered row by row.
proof fn lemma_cell_order(w: int, x0: int, y0: int, x1: int, y1: int)
    requires
        0 <= x0 < w,
        0 <= x1,
        0 <= y0 <= y1,
        y0 < y1 || x0 < x1,
    ensures
        y0 * w + x0 < y1 * w + x1,
{
    assert(y0 * w + x0 < y1 * w + x1) by (nonlinear_arith)
        requires
            0 <= x0 < w,
            0 <= x1,
            0 <= y0 <= y1,
            y0 < y1 || x0 < x1,
    ;
}

/// Copies the pixels of the well-formed 32-bit bit-field bitmap `b` into a
/// new top-left-origin image.
fn copy_pixels(b: &[u8], width: u32, height: u32, bottom_up: bool, pixels_at: u64, offsets: (
    u32,
    u32,
    u32,
)) -> (r: Vec<u8>)
    requires
        b@.len() >= HEADER_LEN,
        dib_error(b@) is None,
        width == dib_width(b@),
        height == dib_height(b@),
        bottom_up == dib_bottom_up(b@),
        pixels_at == dib_pixels_start(b@),
        offsets.0 == channel_offset(dib_mask(b@, 0)),
        offsets.1 == channel_offset(dib_mask(b@, 1)),
        offsets.2 == channel_offset(dib_mask(b@, 2)),
    ensures
        r@.len() == sample_count(width, height),
        forall|x: int, y: int|
            0 <= x < width && 0 <= y < height ==> #[trigger] pixel_of(r@, width, x, y)
                == dib_pixel(b@, x, y),
{
    let ghost w = width as int;
    let ghost h = height as int;
    assert(4 * w * h == 4 * (w * h)) by (nonlinear_arith);
    let mut samples: Vec<u8> = Vec::new();
    let mut y: u32 = 0;
    while y < height
        invariant
            dib_error(b@) is None,
            b@.len() >= HEADER_LEN,
            4 * w * h == 4 * (w * h),
            w == width == dib_width(b@),
            h == height == dib_height(b@),
            bottom_up == dib_bottom_up(b@),
            pixels_at == dib_pixels_start(b@),
            offsets.0 == channel_offset(dib_mask(b@, 0)),
            offsets.1 == channel_offset(dib_mask(b@, 1)),
            offsets.2 == channel_offset(dib_mask(b@, 2)),
            y <= height,
            samples@.len() == 3 * (y * w),
            forall|xx: int, yy: int|
                0 <= xx < w && 0 <= yy < y ==> #[trigger] pixel_of(samples@, width, xx, yy)
                    == dib_pixel(b@, xx, yy),
        decreases height - y,
    {
        let src_row: u32 = if bottom_up {
            height - 1 - y
        } else {
            y
        };
        let mut x: u32 = 0;
        while x < width
            invariant
                dib_error(b@) is None,
                b@.len() >= HEADER_LEN,
                4 * w * h == 4 * (w * h),
                w == width == dib_width(b@),
                h == height == dib_height(b@),
                bottom_up == dib_bottom_up(b@),
                pixels_at == dib_pixels_start(b@),
                offsets.0 == channel_offset(dib_mask(b@, 0)),
                offsets.1 == channel_offset(dib_mask(b@, 1)),
                offsets.2 == channel_offset(dib_mask(b@, 2)),
                y < height,
                src_row == dib_source_row(b@, y as int),
                x <= width,
                samples@.len() == 3 * (y * w + x),
                forall|xx: int, yy: int|
                    0 <= xx < w && (0 <= yy < y || (yy == y && 0 <= xx < x))
                        ==> #[trigger] pixel_of(samples@, width, xx, yy) == dib_pixel(
                        b@,
                        xx,
                        yy,
                    ),
            decreases width - x,
        {
            proof {
                lemma_cell_in_grid(w, h, x as int, src_row as int);
                lemma_cell_in_grid(w, h, x as int, y as int);
            }
            let cell: u64 = src_row as u64 * width as u64 + x as u64;
            let at: u64 = pixels_at + 4 * cell;
            let ghost old_samples = samples@;
            assert(at + 3 < b@.len());
            samples.push(b[(at + offsets.0 as u64) as usize]);
            samples.push(b[(at + offsets.1 as u64) as usize]);
            samples.push(b[(at + offsets.2 as u64) as usize]);
            proof {
                assert forall|xx: int, yy: int|
                    0 <= xx < w && (0 <= yy < y || (yy == y && 0 <= xx < x + 1))
                        implies #[trigger] pixel_of(samples@, width, xx, yy) == dib_pixel(
                        b@,
                        xx,
                        yy,
                    ) by {
                    if yy == y && xx == x {
                        assert(3 * (yy * w + xx) == old_samples.len());
                    } else {
                        lemma_cell_order(w, xx, yy, x as int, y as int);
                        assert(pixel_of(old_samples, width, xx, yy) == dib_pixel(b@, xx, yy));
                    }
                }
            }
            x = x + 1;
        }
        proof {
            assert(y * w + w == (y + 1) * w) by (nonlinear_arith);
        }
        y = y + 1;
    }
    assert(3 * (h * w) == 3 * w * h) by (nonlinear_arith);
    samples
}

/// Copies the image data from a device-independent bitmap into a
/// [`DecodedImage`].
///
/// Only bit-field-packed bitmaps of 32 bits per pixel are accepted; `None`, or
/// an empty buffer, stands for a missing bitmap. Any byte order of the three
/// channels within a pixel is handled, as are both bottom-left and top-left
/// origins: the result always starts at the top-left corner.
pub fn dib_to_image(dib: Option<&[u8]>) -> (r: Result<DecodedImage, ConversionError>)
    ensures
        dib is None ==> r == Err::<DecodedImage, ConversionError>(ConversionError::NullPointer),
        dib is Some ==> match dib_error(dib.unwrap()@) {
            Some(e) => r == Err::<DecodedImage, ConversionError>(e),
            None => r is Ok && decodes_to(dib.unwrap()@, r->Ok_0),
        },
{
    let b = match dib {
        None => {
            return Err(ConversionError::NullPointer);
        },
        Some(b) => b,
    };
    if b.len() == 0 {
        return Err(ConversionError::NullPointer);
    }
    if b.len() < HEADER_LEN {
        return Err(ConversionError::Truncated);
    }
    let compression_format = read_u32(b, 16);
    let bit_depth = read_u16(b, 14);
    if compression_format != BI_BITFIELDS {
        return Err(ConversionError::UnsupportedCompressionFormat(compression_format));
    }
    if bit_depth != 32 {
        return Err(ConversionError::UnsupportedBitDepth(bit_depth));
    }
    // Read the rest of the header
    let width = unsigned_abs(read_i32(b, 4));
    let height_field = read_i32(b, 8);
    // A positive height marks a bottom-left corner origin
    let bottom_up = height_field > 0;
    let height = unsigned_abs(height_field);
    let bytes = read_u32(b, 20);
    let masks_at = read_u32(b, 0) as u64;
    let pixels_at = masks_at + MASK_TABLE_LEN;
    if pixels_at + bytes as u64 > b.len() as u64 {
        return Err(ConversionError::Truncated);
    }
    proof {
        assert((width as int) * (height as int) <= 0xffff_ffffint * 0xffff_ffffint)
            by (nonlinear_arith)
            requires
                width <= 0xffff_ffffint,
                height <= 0xffff_ffffint,
        ;
        assert(4 * (width as int) * (height as int) == 4 * ((width as int) * (height as int)))
            by (nonlinear_arith);
    }
    if (width as u128) * (height as u128) * 4 != bytes as u128 {
        return Err(ConversionError::InvalidLayout);
    }
    let masks_at = masks_at as usize;
    let color_masks = [
        read_u32(b, masks_at),
        read_u32(b, masks_at + 4),
        read_u32(b, masks_at + 8),
    ];
    let offsets = subpixel_ordering(color_masks);
    if offsets.0 > 3 || offsets.1 > 3 || offsets.2 > 3 {
        return Err(ConversionError::InvalidLayout);
    }
    let samples = copy_pixels(b, width, height, bottom_up, pixels_at, offsets);
    match DecodedImage::from_samples(width, height, samples) {
        Some(image) => Ok(image),
        None => Err(ConversionError::InvalidLayout),
    }
}


/// The four little-endian bytes of `v`.
pub open spec fn le_bytes(v: u32) -> Seq<u8> {
    seq![
        (v % 256) as u8,
        ((v / 256) % 256) as u8,
        ((v / 65536) % 256) as u8,
        (v / 16777216) as u8,
    ]
}

/// The mask that selects byte `offset` (0 to 3) of a little-endian 4-byte
/// pixel.
pub open spec fn byte_mask(offset: nat) -> u32 {
    if offset == 0 {
        0x0000_00ff
    } else if offset == 1 {
        0x0000_ff00
    } else if offset == 2 {
        0x00ff_0000
    } else {
        0xff00_0000
    }
}

/// The stored `biHeight` of a bitmap `height` rows high: positive when the
/// bottom row comes first, negative (as two's complement) otherwise.
pub open spec fn height_field(height: u32, bottom_up: bool) -> u32 {
    if bottom_up || height == 0 {
        height
    } else {
        (0x1_0000_0000 - height) as u32
    }
}

/// `offsets` places red, green and blue on three different bytes of a
/// 4-byte pixel.
pub open spec fn valid_channel_offsets(offsets: (nat, nat, nat)) -> bool {
    &&& offsets.0 <= 3
    &&& offsets.1 <= 3
    &&& offsets.2 <= 3
    &&& offsets.0 != offsets.1
    &&& offsets.0 != offsets.2
    &&& offsets.1 != offsets.2
}

/// The header and mask table of a 32-bit bit-field bitmap of `width` by
/// `height` pixels, whose red, green and blue lie at `offsets` in a pixel.
pub open spec fn bitfield_header(width: u32, height: u32, bottom_up: bool, offsets: (
    nat,
    nat,
    nat,
)) -> Seq<u8> {
    le_bytes(HEADER_LEN as u32) + le_bytes(width) + le_bytes(height_field(height, bottom_up))
        + seq![1u8, 0u8, 32u8, 0u8] + le_bytes(BI_BITFIELDS) + le_bytes(
        (4 * width * height) as u32,
    ) + Seq::new(16, |i: int| 0u8) + le_bytes(byte_mask(offsets.0)) + le_bytes(
        byte_mask(offsets.1),
    ) + le_bytes(byte_mask(offsets.2))
}

/// Byte `i` of the pixel data of such a bitmap that shows `samples` (`width`
/// pixels wide, three samples per pixel, top row first); the byte that no
/// channel uses is zero.
pub open spec fn bitfield_byte(
    width: u32,
    height: u32,
    bottom_up: bool,
    offsets: (nat, nat, nat),
    samples: Seq<u8>,
    i: int,
) -> u8 {
    let stored = i / 4;
    let x = stored % (width as int);
    let y = if bottom_up {
        height - 1 - stored / (width as int)
    } else {
        stored / (width as int)
    };
    let (r, g, b) = pixel_of(samples, width, x, y);
    let c = i % 4;
    if c == offsets.0 {
        r
    } else if c == offsets.1 {
        g
    } else if c == offsets.2 {
        b
    } else {
        0
    }
}

/// The 32-bit bit-field bitmap that shows the top-left-origin image
/// `samples`, stored bottom row first or top row first, with red, green and
/// blue at `offsets` in each pixel.
pub open spec fn bitfield_dib(
    width: u32,
    height: u32,
    bottom_up: bool,
    offsets: (nat, nat, nat),
    samples: Seq<u8>,
) -> Seq<u8> {
    bitfield_header(width, height, bottom_up, offsets) + Seq::new(
        (4 * width * height) as nat,
        |i: int| bitfield_byte(width, height, bottom_up, offsets, samples, i),
    )
}

/// The bitmap that shows `samples` bottom row first, with BGR pixels.
pub open spec fn bgr_bottom_up_dib(width: u32, height: u32, samples: Seq<u8>) -> Seq<u8> {
    bitfield_dib(width, height, true, (2, 1, 0), samples)
}

proof fn lemma_le_bytes(b: Seq<u8>, at: int, v: u32)
    requires
        0 <= at,
        at + 4 <= b.len(),
        b.subrange(at, at + 4) == le_bytes(v),
    ensures
        le_u32(b, at) == v,
{
    assert(b[at] == le_bytes(v)[0]);
    assert(b[at + 1] == le_bytes(v)[1]);
    assert(b[at + 2] == le_bytes(v)[2]);
    assert(b[at + 3] == le_bytes(v)[3]);
}

proof fn lemma_byte_mask_offset(offset: nat)
    requires
        offset <= 3,
    ensures
        channel_offset(byte_mask(offset)) == offset,
{
    reveal_with_fuel(lowest_set_bit_from, 26);
    assert(forall|i: u32| i < 8 ==> (0x0000_ff00u32 >> i) & 1 == 0) by (bit_vector);
    assert((0x0000_ff00u32 >> 8u32) & 1 == 1) by (bit_vector);
    assert(forall|i: u32| i < 16 ==> (0x00ff_0000u32 >> i) & 1 == 0) by (bit_vector);
    assert((0x00ff_0000u32 >> 16u32) & 1 == 1) by (bit_vector);
    assert(forall|i: u32| i < 24 ==> (0xff00_0000u32 >> i) & 1 == 0) by (bit_vector);
    assert((0xff00_0000u32 >> 24u32) & 1 == 1) by (bit_vector);
    assert((0x0000_00ffu32 >> 0u32) & 1 == 1) by (bit_vector);
}

proof fn lemma_bitfield_layout(
    width: u32,
    height: u32,
    bottom_up: bool,
    offsets: (nat, nat, nat),
    samples: Seq<u8>,
)
    requires
        width <= i32::MAX,
        height <= i32::MAX,
        bottom_up ==> height >= 1,
        4 * width * height <= u32::MAX,
    ensures
        ({
            let b = bitfield_dib(width, height, bottom_up, offsets, samples);
            &&& b.len() == 52 + 4 * width * height
            &&& dib_header_size(b) == HEADER_LEN
            &&& dib_width(b) == width
            &&& dib_height(b) == height
            &&& dib_bottom_up(b) == bottom_up
            &&& dib_compression(b) == BI_BITFIELDS
            &&& dib_bit_count(b) == 32
            &&& dib_image_size(b) == 4 * width * height
            &&& dib_mask(b, 0) == byte_mask(offsets.0)
            &&& dib_mask(b, 1) == byte_mask(offsets.1)
            &&& dib_mask(b, 2) == byte_mask(offsets.2)
            &&& forall|i: int|
                0 <= i < 4 * width * height ==> #[trigger] b[52 + i] == bitfield_byte(
                    width,
                    height,
                    bottom_up,
                    offsets,
                    samples,
                    i,
                )
        }),
{
    let b = bitfield_dib(width, height, bottom_up, offsets, samples);
    let head = bitfield_header(width, height, bottom_up, offsets);
    assert(head.len() == 52);
    assert(b.subrange(0, 52) == head);
    assert(b.subrange(0, 4) == le_bytes(HEADER_LEN as u32));
    lemma_le_bytes(b, 0, HEADER_LEN as u32);
    assert(b.subrange(4, 8) == le_bytes(width));
    lemma_le_bytes(b, 4, width);
    assert(b.subrange(8, 12) == le_bytes(height_field(height, bottom_up)));
    lemma_le_bytes(b, 8, height_field(height, bottom_up));
    assert(b.subrange(16, 20) == le_bytes(BI_BITFIELDS));
    lemma_le_bytes(b, 16, BI_BITFIELDS);
    assert(b.subrange(20, 24) == le_bytes((4 * width * height) as u32));
    lemma_le_bytes(b, 20, (4 * width * height) as u32);
    assert(b.subrange(40, 44) == le_bytes(byte_mask(offsets.0)));
    lemma_le_bytes(b, 40, byte_mask(offsets.0));
    assert(b.subrange(44, 48) == le_bytes(byte_mask(offsets.1)));
    lemma_le_bytes(b, 44, byte_mask(offsets.1));
    assert(b.subrange(48, 52) == le_bytes(byte_mask(offsets.2)));
    lemma_le_bytes(b, 48, byte_mask(offsets.2));
    assert(b[14] == 32u8 && b[15] == 0u8);
    assert(dib_width(b) == width);
    assert(le_u32(b, 8) == height_field(height, bottom_up));
    assert(dib_height(b) == height);
    assert(dib_bottom_up(b) == bottom_up);
}

/// Decoding is faithful for every channel order and either origin: an image
/// written as a 32-bit bit-field bitmap, bottom row first or top row first,
/// with red, green and blue on any three different bytes of each pixel, is a
/// well-formed bitmap whose decoded pixel at every `(x, y)` is the one the
/// image has there.
pub proof fn lemma_bitfield_round_trip(
    width: u32,
    height: u32,
    bottom_up: bool,
    offsets: (nat, nat, nat),
    samples: Seq<u8>,
)
    requires
        width <= i32::MAX,
        height <= i32::MAX,
        bottom_up ==> height >= 1,
        4 * width * height <= u32::MAX,
        valid_channel_offsets(offsets),
        samples.len() == sample_count(width, height),
    ensures
        dib_error(bitfield_dib(width, height, bottom_up, offsets, samples)) is None,
        forall|img: DecodedImage| #[trigger]
            decodes_to(bitfield_dib(width, height, bottom_up, offsets, samples), img) ==> {
                &&& image_dimensions(img) == (width, height)
                &&& forall|x: int, y: int|
                    0 <= x < width && 0 <= y < height ==> #[trigger] pixel_of(
                        image_samples(img),
                        width,
                        x,
                        y,
                    ) == pixel_of(samples, width, x, y)
            },
{
    let w = width as int;
    let h = height as int;
    let b = bitfield_dib(width, height, bottom_up, offsets, samples);
    lemma_bitfield_layout(width, height, bottom_up, offsets, samples);
    lemma_byte_mask_offset(offsets.0);
    lemma_byte_mask_offset(offsets.1);
    lemma_byte_mask_offset(offsets.2);
    assert(4 * w * h == 4 * (w * h)) by (nonlinear_arith);
    assert(dib_error(b) is None);
    assert forall|x: int, y: int| 0 <= x < w && 0 <= y < h implies #[trigger] dib_pixel(b, x, y)
        == pixel_of(samples, width, x, y) by {
        let row = dib_source_row(b, y);
        lemma_cell_in_grid(w, h, x, row);
        let cell = row * w + x;
        lemma_fundamental_div_mod_converse(cell, w, row, x);
        let (o0, o1, o2) = (offsets.0 as int, offsets.1 as int, offsets.2 as int);
        lemma_fundamental_div_mod_converse(4 * cell + o0, 4, cell, o0);
        lemma_fundamental_div_mod_converse(4 * cell + o1, 4, cell, o1);
        lemma_fundamental_div_mod_converse(4 * cell + o2, 4, cell, o2);
        assert(b[52 + (4 * cell + o0)] == bitfield_byte(
            width,
            height,
            bottom_up,
            offsets,
            samples,
            4 * cell + o0,
        ));
        assert(b[52 + (4 * cell + o1)] == bitfield_byte(
            width,
            height,
            bottom_up,
            offsets,
            samples,
            4 * cell + o1,
        ));
        assert(b[52 + (4 * cell + o2)] == bitfield_byte(
            width,
            height,
            bottom_up,
            offsets,
            samples,
            4 * cell + o2,
        ));
    }
}

/// Round trip: a top-left-origin image written as a 32-bit bit-field bitmap,
/// bottom row first with BGR pixels, is a well-formed bitmap, and decoding it
/// gives back an image of the same size with the same pixels.
pub proof fn lemma_bgr_bottom_up_round_trip(width: u32, height: u32, samples: Seq<u8>)
    requires
        width <= i32::MAX,
        1 <= height <= i32::MAX,
        4 * width * height <= u32::MAX,
        samples.len() == sample_count(width, height),
    ensures
        dib_error(bgr_bottom_up_dib(width, height, samples)) is None,
        forall|img: DecodedImage| #[trigger]
            decodes_to(bgr_bottom_up_dib(width, height, samples), img) ==> {
                &&& image_dimensions(img) == (width, height)
                &&& forall|x: int, y: int|
                    0 <= x < width && 0 <= y < height ==> #[trigger] pixel_of(
                        image_samples(img),
                        width,
                        x,
                        y,
                    ) == pixel_of(samples, width, x, y)
            },
{
    lemma_bitfield_round_trip(width, height, true, (2, 1, 0), samples);
}

} // verus!
