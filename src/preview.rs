use crate::text::same_text;
use vstd::prelude::*;

verus! {

#[verifier::external_type_specification]
#[verifier::external_body]
pub struct ExDynamicImage(image::DynamicImage);

/// Relies on image's `DynamicImage::as_rgba8` and on `ImageBuffer::width`,
/// `height` and `as_raw`: an 8-bit RGBA image is handed out as its width,
/// height and raw buffer, which holds at least four bytes per pixel, row by
/// row (every constructor of `ImageBuffer` checks that length).
#[verifier::external_body]
fn rgba8_parts(image: &image::DynamicImage) -> (r: Option<(u32, u32, Vec<u8>)>)
    ensures
        r matches Some(parts) ==> 4 * (parts.0 * parts.1) <= parts.2@.len(),
{
    match image.as_rgba8() {
        Some(buffer) => Some((buffer.width(), buffer.height(), buffer.as_raw().clone())),
        None => None,
    }
}

/// The quality at which a PDF preview page is rendered.
#[derive(Clone, Copy, Debug, PartialEq, Eq, Structural, Hash)]
pub enum PdfQuality {
    High,
    Medium,
    Low,
}

/// The quality spelled `s`, if any.
pub open spec fn quality_named(s: Seq<char>) -> Option<PdfQuality> {
    if s == "HIGH"@ {
        Some(PdfQuality::High)
    } else if s == "MEDIUM"@ {
        Some(PdfQuality::Medium)
    } else if s == "LOW"@ {
        Some(PdfQuality::Low)
    } else {
        None
    }
}

impl PdfQuality {
    /// The quality spelled `name`: `HIGH`, `MEDIUM` or `LOW`.
    pub fn parse(name: &str) -> (r: Option<PdfQuality>)
        ensures
            r == quality_named(name@),
    {
        if same_text(name, "HIGH") {
            Some(PdfQuality::High)
        } else if same_text(name, "MEDIUM") {
            Some(PdfQuality::Medium)
        } else if same_text(name, "LOW") {
            Some(PdfQuality::Low)
        } else {
            None
        }
    }
}

/// The 32-bit word with bytes alpha, red, green, blue from the most
/// significant down, read as a signed integer.
pub open spec fn argb_word(red: u8, green: u8, blue: u8, alpha: u8) -> int {
    let hi: int = if alpha >= 128 { alpha - 256 } else { alpha as int };
    hi * 0x100_0000 + red * 0x1_0000 + green * 0x100 + blue
}

/// The pixel at `i` of an RGBA byte buffer, as an ARGB word.
pub open spec fn argb_at(rgba: Seq<u8>, i: int) -> int {
    argb_word(rgba[4 * i], rgba[4 * i + 1], rgba[4 * i + 2], rgba[4 * i + 3])
}

/// One pixel as an Android ARGB colour.
pub fn argb_pixel(red: u8, green: u8, blue: u8, alpha: u8) -> (r: i32)
    ensures
        r as int == argb_word(red, green, blue, alpha),
{
    let hi: i32 = if alpha >= 128 { alpha as i32 - 256 } else { alpha as i32 };
    hi * 0x100_0000 + red as i32 * 0x1_0000 + green as i32 * 0x100 + blue as i32
}

/// The first `width * height` pixels of an RGBA byte buffer, row by row, as
/// Android ARGB colours.
pub fn argb_pixels(rgba: &[u8], width: u32, height: u32) -> (r: Vec<i32>)
    requires
        4 * (width * height) <= rgba@.len(),
    ensures
        r@.len() == width * height,
        forall|i: int| 0 <= i < r@.len() ==> #[trigger] r@[i] as int == argb_at(rgba@, i),
{
    let len: usize = rgba.len();
    assert(width * height <= len);
    let n: usize = width as usize * height as usize;
    let mut r: Vec<i32> = Vec::new();
    let mut i: usize = 0;
    while i < n
        invariant
            n == width * height,
            4 * n <= rgba@.len(),
            len == rgba@.len(),
            i <= n,
            r@.len() == i,
            forall|j: int| 0 <= j < i ==> #[trigger] r@[j] as int == argb_at(rgba@, j),
        decreases n - i,
    {
        assert(4 * i + 3 < 4 * n);
        let k: usize = 4 * i;
        r.push(argb_pixel(rgba[k], rgba[k + 1], rgba[k + 2], rgba[k + 3]));
        i = i + 1;
    }
    r
}

/// A bitmap ready for Android: its size and its pixels, row by row.
#[derive(Clone, Debug, PartialEq, Eq)]
pub struct Bitmap {
    pub width: u32,
    pub height: u32,
    pub pixels: Vec<i32>,
}

/// `b` holds the first `b.width * b.height` pixels of the RGBA buffer `rgba`,
/// row by row, as ARGB words.
pub open spec fn packs(b: Bitmap, rgba: Seq<u8>) -> bool {
    &&& 4 * (b.width * b.height) <= rgba.len()
    &&& b.pixels@.len() == b.width * b.height
    &&& forall|i: int| 0 <= i < b.pixels@.len() ==> #[trigger] b.pixels@[i] as int == argb_at(rgba, i)
}

/// The bitmap of a `width` by `height` image whose RGBA bytes, row by row,
/// begin `rgba`.
pub fn preview_bitmap(rgba: &[u8], width: u32, height: u32) -> (r: Bitmap)
    requires
        4 * (width * height) <= rgba@.len(),
    ensures
        r.width == width,
        r.height == height,
        r.pixels@.len() == width * height,
        forall|i: int| 0 <= i < r.pixels@.len() ==> #[trigger] r.pixels@[i] as int == argb_at(rgba@, i),
        packs(r, rgba@),
{
    Bitmap { width, height, pixels: argb_pixels(rgba, width, height) }
}

/// The bitmap of a decoded image: for an 8-bit RGBA image, the packing of
/// its own buffer at its own size; `None` for an image of another pixel
/// format.
pub fn image_bitmap(image: &image::DynamicImage) -> (r: Option<Bitmap>)
    ensures
        r is Some ==> exists|rgba: Seq<u8>| packs(r->Some_0, rgba),
{
    match rgba8_parts(image) {
        Some((width, height, bytes)) => {
            let b = preview_bitmap(bytes.as_slice(), width, height);
            assert(packs(b, bytes@));
            let r = Some(b);
            assert(packs(r->Some_0, bytes@));
            r
        },
        None => None,
    }
}

} // verus!
