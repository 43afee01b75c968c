//! The screen classifier: from one canonical page capture to structured
//! record rows and a page-index label.
//!
//! A capture is plain pixel data here — a canonical 1920x1080 frame of
//! RGB bytes.  Star tiers are decoded from fixed pixels by color
//! distance.  Every text field is cropped generously, tightened to the
//! ink's bounding box under a global adaptive threshold, re-expanded by a
//! margin proportional to the glyph height, and handed out for OCR; the
//! recognized texts are then decoded by exact parsers and joined into
//! rows, truncated at the first failing field.

use vstd::prelude::*;

use crate::errors::ScanError;
use crate::language::Language;
use crate::record::{models, spec_item_type_name, ItemType, OneRecord, RecordModel};

verus! {

/// The canonical frame width.
pub const FRAME_WIDTH: u32 = 1920;

/// The canonical frame height.
pub const FRAME_HEIGHT: u32 = 1080;

/// The bytes of one canonical RGB frame.
pub const FRAME_BYTES: usize = 1920 * 1080 * 3;

/// The most records one listing page shows.
pub const MAX_RECORD_NUM: usize = 10;

/// The column sampled for a row's star-tier color.
pub const STAR_X: u32 = 352;

/// The horizontal span of the item-name field.
pub const ITEM_NAME_X0: u32 = 367;

/// See `ITEM_NAME_X0`.
pub const ITEM_NAME_X1: u32 = 883;

/// The horizontal span of the item-category field.
pub const ITEM_TYPE_X0: u32 = 883;

/// See `ITEM_TYPE_X0`; the midpoint of the category and time columns.
pub const ITEM_TYPE_X1: u32 = 1216;

/// The horizontal span of the date-time field.
pub const TIME_X0: u32 = 1216;

/// See `TIME_X0`.
pub const TIME_X1: u32 = 1548;

/// The rectangle of the page-index label.
pub const INDEX_X0: u32 = 1577;

/// See `INDEX_X0`.
pub const INDEX_X1: u32 = 1751;

/// See `INDEX_X0`.
pub const INDEX_Y0: u32 = 464;

/// See `INDEX_X0`.
pub const INDEX_Y1: u32 = 577;

/// The ink-to-border margin that a normalized OCR input keeps.
pub const CHAR_MARGIN: u32 = 7;

/// The glyph height that `CHAR_MARGIN` is proportioned against.
pub const CHAR_HEIGHT: u32 = 18;

/// The top edge of row `i`: rows start at 207 and repeat every 607/9
/// pixels, rounded.
pub open spec fn spec_record_y0(i: int) -> int {
    207 + (607 * i + 4) / 9
}

/// The top edge of row `i`.
pub fn record_y0(i: usize) -> (y: u32)
    requires
        i < MAX_RECORD_NUM,
    ensures
        y == spec_record_y0(i as int),
{
    207 + (607 * (i as u32) + 4) / 9
}

/// The bottom edge of row `i`.
pub fn record_y1(i: usize) -> (y: u32)
    requires
        i < MAX_RECORD_NUM,
    ensures
        y == spec_record_y0(i as int) + 32,
{
    record_y0(i) + 32
}

/// The row where row `i`'s star color is sampled: the row's vertical
/// middle.
pub open spec fn spec_star_y(i: int) -> int {
    spec_record_y0(i) + 16
}

/// The bytes of the pixel at `(x, y)` in an RGB buffer `w` pixels wide.
pub open spec fn spec_rgb_at(f: Seq<u8>, w: int, x: int, y: int) -> (u8, u8, u8) {
    (f[(y * w + x) * 3], f[(y * w + x) * 3 + 1], f[(y * w + x) * 3 + 2])
}

/// The squared Euclidean distance of two RGB colors.
pub open spec fn spec_rgb_dist2(c: (u8, u8, u8), r: int, g: int, b: int) -> int {
    (c.0 - r) * (c.0 - r) + (c.1 - g) * (c.1 - g) + (c.2 - b) * (c.2 - b)
}

/// Which star tier a sampled color means: the reference color of tier 3,
/// 4 or 5 within distance 5, or none.
pub open spec fn spec_rgb_to_star(c: (u8, u8, u8)) -> Option<u8> {
    if spec_rgb_dist2(c, 55, 98, 242) < 25 {
        Some(3u8)
    } else if spec_rgb_dist2(c, 192, 105, 214) < 25 {
        Some(4u8)
    } else if spec_rgb_dist2(c, 233, 155, 55) < 25 {
        Some(5u8)
    } else {
        None
    }
}

/// The star tier decoded for row `i` of a canonical frame.
pub open spec fn spec_star_at(f: Seq<u8>, i: int) -> Option<u8> {
    spec_rgb_to_star(spec_rgb_at(f, 1920, STAR_X as int, spec_star_y(i)))
}

/// The squared difference of two channel values.
fn sq_diff(x: u8, y: u8) -> (d: u32)
    ensures
        d == (x - y) * (x - y),
        d <= 65025,
{
    let diff: i32 = x as i32 - y as i32;
    proof {
        assert(0 <= diff * diff && diff * diff <= 65025 && diff * diff == (x - y) * (x - y))
            by (nonlinear_arith)
            requires
                diff == x - y,
                0 <= x <= 255,
                0 <= y <= 255,
        ;
    }
    (diff * diff) as u32
}

/// The squared distance of a pixel's color to a reference color.
fn rgb_dist2(c: (u8, u8, u8), r: u8, g: u8, b: u8) -> (d: u32)
    ensures
        d == spec_rgb_dist2(c, r as int, g as int, b as int),
{
    sq_diff(c.0, r) + sq_diff(c.1, g) + sq_diff(c.2, b)
}

/// Decodes a sampled color into a star tier, or nothing when it is no
/// reference color.  The tolerance is 5 in Euclidean distance, checked as
/// 25 against the squared distance.
pub fn rgb_to_star(c: (u8, u8, u8)) -> (r: Option<u8>)
    ensures
        r == spec_rgb_to_star(c),
{
    if rgb_dist2(c, 55, 98, 242) < 25 {
        Some(3)
    } else if rgb_dist2(c, 192, 105, 214) < 25 {
        Some(4)
    } else if rgb_dist2(c, 233, 155, 55) < 25 {
        Some(5)
    } else {
        None
    }
}

/// One canonical page capture: 1920x1080 RGB bytes, row-major, three
/// bytes per pixel.
#[derive(Debug, Clone)]
pub struct RecordImage {
    /// The frame's pixel bytes.
    pub rgb: Vec<u8>,
}

impl RecordImage {
    /// A frame is exactly one canonical capture's bytes.
    pub open spec fn wf(&self) -> bool {
        self.rgb@.len() == FRAME_BYTES
    }

    /// Wraps one canonical capture.
    pub fn new(rgb: Vec<u8>) -> (r: Self)
        requires
            rgb@.len() == FRAME_BYTES,
        ensures
            r.rgb == rgb,
            r.wf(),
    {
        Self { rgb }
    }

    /// The pixel at `(x, y)`.
    fn rgb_at(&self, x: u32, y: u32) -> (c: (u8, u8, u8))
        requires
            self.wf(),
            x < FRAME_WIDTH,
            y < FRAME_HEIGHT,
        ensures
            c == spec_rgb_at(self.rgb@, 1920, x as int, y as int),
    {
        let base: usize = ((y as usize) * 1920 + (x as usize)) * 3;
        (self.rgb[base], self.rgb[base + 1], self.rgb[base + 2])
    }

    /// The star tiers of the page's rows, top down: one fixed pixel per
    /// row position, classified by color distance; the first row whose
    /// color matches no tier ends the enumeration, so a partially filled
    /// page needs no blank-row marker.
    pub fn stars(&self) -> (r: Vec<u8>)
        requires
            self.wf(),
        ensures
            r@.len() <= MAX_RECORD_NUM,
            forall|j: int| 0 <= j < r@.len() ==> Some(r@[j]) == spec_star_at(self.rgb@, j),
            r@.len() < MAX_RECORD_NUM ==> spec_star_at(self.rgb@, r@.len() as int) is None,
    {
        let mut out: Vec<u8> = Vec::new();
        let mut i: usize = 0;
        while i < MAX_RECORD_NUM
            invariant
                self.wf(),
                i <= MAX_RECORD_NUM,
                out@.len() == i,
                forall|j: int| 0 <= j < i ==> Some(out@[j]) == spec_star_at(self.rgb@, j),
            decreases MAX_RECORD_NUM - i,
        {
            let y = record_y0(i) + 16;
            let c = self.rgb_at(STAR_X, y);
            match rgb_to_star(c) {
                Some(s) => out.push(s),
                None => {
                    return out;
                },
            }
            i += 1;
        }
        out
    }

    /// The RGB bytes of the rectangle `(x0, y0)..(x1, y1)`.
    fn crop_rgb(&self, x0: u32, y0: u32, x1: u32, y1: u32) -> (c: Vec<u8>)
        requires
            self.wf(),
            x0 < x1 <= 1920,
            y0 < y1 <= 1080,
        ensures
            c@ == spec_crop_rgb(
                self.rgb@,
                1920,
                x0 as int,
                y0 as int,
                (x1 - x0) as int,
                (y1 - y0) as int,
            ),
    {
        let w = x1 - x0;
        let h = y1 - y0;
        let ghost target = spec_crop_rgb(
            self.rgb@,
            1920,
            x0 as int,
            y0 as int,
            w as int,
            h as int,
        );
        let mut out: Vec<u8> = Vec::new();
        let mut dy: u32 = 0;
        while dy < h
            invariant
                self.wf(),
                x0 + w <= 1920,
                y0 + h <= 1080,
                1 <= w,
                1 <= h,
                dy <= h,
                target == spec_crop_rgb(
                    self.rgb@,
                    1920,
                    x0 as int,
                    y0 as int,
                    w as int,
                    h as int,
                ),
                out@.len() == 3 * (dy * w),
                forall|k: int| 0 <= k < out@.len() ==> out@[k] == target[k],
            decreases h - dy,
        {
            let mut dx: u32 = 0;
            while dx < w
                invariant
                    self.wf(),
                    x0 + w <= 1920,
                    y0 + h <= 1080,
                    1 <= w,
                    1 <= h,
                    dy < h,
                    dx <= w,
                    target == spec_crop_rgb(
                        self.rgb@,
                        1920,
                        x0 as int,
                        y0 as int,
                        w as int,
                        h as int,
                    ),
                    out@.len() == 3 * (dy * w + dx),
                    forall|k: int| 0 <= k < out@.len() ==> out@[k] == target[k],
                decreases w - dx,
            {
                let c = self.rgb_at(x0 + dx, y0 + dy);
                proof {
                    let p = dy * w + dx;
                    assert(3 * p + 2 < 3 * w * h && p % (w as int) == dx && p / (w as int) == dy)
                        by (nonlinear_arith)
                        requires
                            0 <= dx < w,
                            0 <= dy < h,
                            p == dy * w + dx,
                    ;
                    assert((3 * p) / 3 == p && (3 * p) % 3 == 0 && (3 * p + 1) / 3 == p && (3 * p
                        + 1) % 3 == 1 && (3 * p + 2) / 3 == p && (3 * p + 2) % 3 == 2)
                        by (nonlinear_arith)
                        requires
                            p >= 0,
                    ;
                    assert(target[3 * p] == self.rgb@[((y0 + dy) * 1920 + (x0 + dx)) * 3]);
                    assert(target[3 * p + 1] == self.rgb@[((y0 + dy) * 1920 + (x0 + dx)) * 3 + 1]);
                    assert(target[3 * p + 2] == self.rgb@[((y0 + dy) * 1920 + (x0 + dx)) * 3 + 2]);
                }
                out.push(c.0);
                out.push(c.1);
                out.push(c.2);
                dx += 1;
            }
            proof {
                assert(3 * (dy * w + w) == 3 * ((dy + 1) * w)) by (nonlinear_arith);
            }
            dy += 1;
        }
        proof {
            assert(out@.len() == target.len()) by {
                assert(3 * (h * w) == 3 * w * h) by (nonlinear_arith);
            }
            assert(out@ =~= target);
        }
        out
    }

    /// Crops the generous rectangle `(x0, y0)..(x1, y1)`, tightens it to
    /// its ink under the crop's own adaptive threshold, re-expands it by
    /// the glyph margin, and answers that rectangle's luma bytes as the
    /// OCR input.  A rectangle without any ink — an unpopulated
    /// placeholder field — is answered as `OcrNoTextFound`.
    pub fn get_ocr_image(&self, x0: u32, y0: u32, x1: u32, y1: u32) -> (r: Result<
        OcrRegion,
        ScanError,
    >)
        requires
            self.wf(),
            x0 < x1 <= 1920,
            y0 < y1 <= 1080,
        ensures
            (match r {
                Ok(reg) => spec_ocr_region_ok(
                    self.rgb@,
                    x0 as int,
                    y0 as int,
                    x1 as int,
                    y1 as int,
                    reg,
                ),
                Err(e) => e == ScanError::OcrNoTextFound && spec_region_blank(
                    self.rgb@,
                    x0 as int,
                    y0 as int,
                    x1 as int,
                    y1 as int,
                ),
            }),
    {
        let ow = x1 - x0;
        let oh = y1 - y0;
        let crop = self.crop_rgb(x0, y0, x1, y1);
        let lum = rgb_to_luma(&crop, ow, oh);
        let lvl = otsu_level_gray(&lum, ow, oh);
        let ink = match ink_bounding_box(&lum, ow, oh, lvl) {
            Some(b) => b,
            None => {
                return Err(ScanError::OcrNoTextFound);
            },
        };
        let m = char_margin_for_height(ink.h);
        let out_x = if x0 + ink.x >= m {
            x0 + ink.x - m
        } else {
            0
        };
        let out_y = if y0 + ink.y >= m {
            y0 + ink.y - m
        } else {
            0
        };
        let end_x = if x0 + ink.x + ink.w + m <= 1920 {
            x0 + ink.x + ink.w + m
        } else {
            1920
        };
        let end_y = if y0 + ink.y + ink.h + m <= 1080 {
            y0 + ink.y + ink.h + m
        } else {
            1080
        };
        let out_w = end_x - out_x;
        let out_h = end_y - out_y;
        let out_crop = self.crop_rgb(out_x, out_y, end_x, end_y);
        let out_luma = rgb_to_luma(&out_crop, out_w, out_h);
        let reg = OcrRegion { ink, x: out_x, y: out_y, width: out_w, height: out_h, luma: out_luma };
        proof {
            let f = self.rgb@;
            let owi = x1 - x0;
            let ohi = y1 - y0;
            let lum_spec = luma_of(spec_crop_rgb(f, 1920, x0 as int, y0 as int, owi as int, ohi as int));
            assert(lum@ == lum_spec);
            assert(lvl == otsu_level_of(lum_spec));
            assert(m == (7 * reg.ink.h + 9) / 18);
            assert(reg.luma@ == luma_of(
                spec_crop_rgb(f, 1920, reg.x as int, reg.y as int, reg.width as int, reg.height as int),
            ));
            assert(spec_ocr_region_ok(f, x0 as int, y0 as int, x1 as int, y1 as int, reg));
        }
        Ok(reg)
    }
}

/// The crop of an RGB buffer `fw` pixels wide: the `w` by `h` rectangle
/// whose top-left pixel is `(x0, y0)`, again row-major RGB bytes.
pub open spec fn spec_crop_rgb(f: Seq<u8>, fw: int, x0: int, y0: int, w: int, h: int) -> Seq<u8> {
    Seq::new(
        (3 * w * h) as nat,
        |k: int|
            {
                let p = k / 3;
                let ch = k % 3;
                let px = p % w;
                let py = p / w;
                f[((y0 + py) * fw + (x0 + px)) * 3 + ch]
            },
    )
}

/// What the luma conversion of an RGB buffer answers, one byte per
/// pixel.  The conversion weighs each pixel's channels with the fixed
/// sRGB luminance coefficients in floating point and rounds; being
/// floating point, its exact rounding is not restated here, only named.
pub uninterp spec fn luma_of(rgb: Seq<u8>) -> Seq<u8>;

/// What the adaptive threshold of a gray buffer is.
pub uninterp spec fn otsu_level_of(gray: Seq<u8>) -> u8;

/// Relies on image: `DynamicImage::into_luma8` weighs each pixel's
/// channels with the fixed sRGB luminance coefficients, a function of
/// the pixel bytes alone, one luma byte per pixel.
#[verifier::external_body]
fn rgb_to_luma(rgb: &Vec<u8>, width: u32, height: u32) -> (r: Vec<u8>)
    requires
        rgb@.len() == 3 * width * height,
        1 <= width <= 1920,
        1 <= height <= 1080,
    ensures
        r@ == luma_of(rgb@),
        r@.len() == width * height,
{
    let img = image::RgbImage::from_raw(width, height, rgb.clone()).unwrap();
    image::DynamicImage::ImageRgb8(img).into_luma8().into_raw()
}

/// Relies on imageproc: `otsu_level` picks the global threshold that
/// best separates a gray image's histogram, a function of the pixel
/// bytes alone.
#[verifier::external_body]
fn otsu_level_gray(gray: &Vec<u8>, width: u32, height: u32) -> (t: u8)
    requires
        gray@.len() == width * height,
        1 <= width <= 1920,
        1 <= height <= 1080,
    ensures
        t == otsu_level_of(gray@),
{
    let img = image::GrayImage::from_raw(width, height, gray.clone()).unwrap();
    imageproc::contrast::otsu_level(&img)
}

/// Ink at `(x, y)` of a gray buffer `w` pixels wide: at or below the
/// threshold, exactly the pixels that binary thresholding would mark
/// as foreground ink.
pub open spec fn spec_is_ink(g: Seq<u8>, w: int, x: int, y: int, level: u8) -> bool {
    g[y * w + x] <= level
}

/// The tight bounding box of a crop's ink, in crop coordinates.
#[derive(Debug, Copy, Clone, PartialEq, Eq, Structural)]
pub struct InkBox {
    /// Leftmost ink column.
    pub x: u32,
    /// Topmost ink row.
    pub y: u32,
    /// Width; the rightmost ink column is `x + w - 1`.
    pub w: u32,
    /// Height; the bottom ink row is `y + h - 1`.
    pub h: u32,
}

/// Finds the tight bounding box of a gray buffer's ink under the given
/// threshold, or nothing when the buffer holds no ink at all.
pub fn ink_bounding_box(gray: &Vec<u8>, width: u32, height: u32, level: u8) -> (r: Option<InkBox>)
    requires
        gray@.len() == width * height,
        1 <= width <= 1920,
        1 <= height <= 1080,
    ensures
        (match r {
            Some(b) => {
                &&& 1 <= b.w && b.x + b.w <= width
                &&& 1 <= b.h && b.y + b.h <= height
                &&& forall|x: int, y: int|
                    0 <= x < width && 0 <= y < height && #[trigger] spec_is_ink(
                        gray@,
                        width as int,
                        x,
                        y,
                        level,
                    ) ==> b.x <= x < b.x + b.w && b.y <= y < b.y + b.h
                &&& exists|y: int|
                    0 <= y < height && #[trigger] spec_is_ink(
                        gray@,
                        width as int,
                        b.x as int,
                        y,
                        level,
                    )
                &&& exists|y: int|
                    0 <= y < height && #[trigger] spec_is_ink(
                        gray@,
                        width as int,
                        b.x + b.w - 1,
                        y,
                        level,
                    )
                &&& exists|x: int|
                    0 <= x < width && #[trigger] spec_is_ink(
                        gray@,
                        width as int,
                        x,
                        b.y as int,
                        level,
                    )
                &&& exists|x: int|
                    0 <= x < width && #[trigger] spec_is_ink(
                        gray@,
                        width as int,
                        x,
                        b.y + b.h - 1,
                        level,
                    )
            },
            None => forall|x: int, y: int|
                0 <= x < width && 0 <= y < height ==> !(#[trigger] spec_is_ink(
                    gray@,
                    width as int,
                    x,
                    y,
                    level,
                )),
        }),
{
    let mut found = false;
    let mut min_x: u32 = 0;
    let mut max_x: u32 = 0;
    let mut min_y: u32 = 0;
    let mut max_y: u32 = 0;
    let mut y: u32 = 0;
    while y < height
        invariant
            gray@.len() == width * height,
            1 <= width <= 1920,
            1 <= height <= 1080,
            y <= height,
            !found ==> forall|px: int, py: int|
                0 <= px < width && 0 <= py < y ==> !(#[trigger] spec_is_ink(
                    gray@,
                    width as int,
                    px,
                    py,
                    level,
                )),
            found ==> {
                &&& min_x <= max_x < width
                &&& min_y <= max_y < y
                &&& forall|px: int, py: int|
                    0 <= px < width && 0 <= py < y && #[trigger] spec_is_ink(
                        gray@,
                        width as int,
                        px,
                        py,
                        level,
                    ) ==> min_x <= px <= max_x && min_y <= py <= max_y
                &&& exists|py: int|
                    0 <= py < y && #[trigger] spec_is_ink(
                        gray@,
                        width as int,
                        min_x as int,
                        py,
                        level,
                    )
                &&& exists|py: int|
                    0 <= py < y && #[trigger] spec_is_ink(
                        gray@,
                        width as int,
                        max_x as int,
                        py,
                        level,
                    )
                &&& exists|px: int|
                    0 <= px < width && #[trigger] spec_is_ink(
                        gray@,
                        width as int,
                        px,
                        min_y as int,
                        level,
                    )
                &&& exists|px: int|
                    0 <= px < width && #[trigger] spec_is_ink(
                        gray@,
                        width as int,
                        px,
                        max_y as int,
                        level,
                    )
            },
        decreases height - y,
    {
        let mut x: u32 = 0;
        while x < width
            invariant
                gray@.len() == width * height,
                1 <= width <= 1920,
                1 <= height <= 1080,
                y < height,
                x <= width,
                !found ==> forall|px: int, py: int|
                    0 <= px < width && 0 <= py < y ==> !(#[trigger] spec_is_ink(
                        gray@,
                        width as int,
                        px,
                        py,
                        level,
                    )),
                !found ==> forall|px: int|
                    0 <= px < x ==> !(#[trigger] spec_is_ink(
                        gray@,
                        width as int,
                        px,
                        y as int,
                        level,
                    )),
                found ==> {
                    &&& min_x <= max_x < width
                    &&& min_y <= max_y <= y
                    &&& forall|px: int, py: int|
                        0 <= px < width && 0 <= py < y && #[trigger] spec_is_ink(
                            gray@,
                            width as int,
                            px,
                            py,
                            level,
                        ) ==> min_x <= px <= max_x && min_y <= py <= max_y
                    &&& forall|px: int|
                        0 <= px < x && #[trigger] spec_is_ink(
                            gray@,
                            width as int,
                            px,
                            y as int,
                            level,
                        ) ==> min_x <= px <= max_x && max_y == y
                    &&& exists|py: int|
                        0 <= py <= y && #[trigger] spec_is_ink(
                            gray@,
                            width as int,
                            min_x as int,
                            py,
                            level,
                        )
                    &&& exists|py: int|
                        0 <= py <= y && #[trigger] spec_is_ink(
                            gray@,
                            width as int,
                            max_x as int,
                            py,
                            level,
                        )
                    &&& exists|px: int|
                        0 <= px < width && #[trigger] spec_is_ink(
                            gray@,
                            width as int,
                            px,
                            min_y as int,
                            level,
                        )
                    &&& exists|px: int|
                        0 <= px < width && #[trigger] spec_is_ink(
                            gray@,
                            width as int,
                            px,
                            max_y as int,
                            level,
                        )
                },
            decreases width - x,
        {
            proof {
                assert(y * width + x < width * height && y * width + x <= 1080 * 1920)
                    by (nonlinear_arith)
                    requires
                        0 <= x < width,
                        0 <= y < height,
                        width <= 1920,
                        height <= 1080,
                ;
            }
            let idx: usize = (y as usize) * (width as usize) + (x as usize);
            if gray[idx] <= level {
                assert(spec_is_ink(gray@, width as int, x as int, y as int, level));
                if !found {
                    found = true;
                    min_x = x;
                    max_x = x;
                    min_y = y;
                    max_y = y;
                } else {
                    if x < min_x {
                        min_x = x;
                    }
                    if x > max_x {
                        max_x = x;
                    }
                    max_y = y;
                }
            }
            x += 1;
        }
        y += 1;
    }
    proof {
        if found {
            let fw = width as int;
            let xe = choose|py: int|
                0 <= py < height && spec_is_ink(gray@, fw, max_x as int, py, level);
            assert(spec_is_ink(gray@, fw, min_x + (max_x - min_x + 1) - 1, xe, level));
            assert(exists|py: int|
                0 <= py < height && #[trigger] spec_is_ink(
                    gray@,
                    fw,
                    min_x + (max_x - min_x + 1) - 1,
                    py,
                    level,
                ));
            let ye = choose|px: int|
                0 <= px < width && spec_is_ink(gray@, fw, px, max_y as int, level);
            assert(spec_is_ink(gray@, fw, ye, min_y + (max_y - min_y + 1) - 1, level));
            assert(exists|px: int|
                0 <= px < width && #[trigger] spec_is_ink(
                    gray@,
                    fw,
                    px,
                    min_y + (max_y - min_y + 1) - 1,
                    level,
                ));
        }
    }
    if found {
        Some(InkBox { x: min_x, y: min_y, w: max_x - min_x + 1, h: max_y - min_y + 1 })
    } else {
        None
    }
}

/// The border margin an OCR input keeps around its ink, proportional to
/// the glyph height: `CHAR_MARGIN` at the reference `CHAR_HEIGHT`,
/// rounded.
pub fn char_margin_for_height(char_height: u32) -> (m: u32)
    requires
        char_height <= 1080,
    ensures
        m == (7 * char_height + 9) / 18,
{
    (7 * char_height + 9) / 18
}

/// One normalized OCR input: the tight ink box found in the generous
/// crop, the re-expanded absolute rectangle, and that rectangle's luma
/// bytes, ready for the OCR backend.
#[derive(Debug, Clone)]
pub struct OcrRegion {
    /// The ink's tight bounding box, in the generous crop's coordinates.
    pub ink: InkBox,
    /// The re-expanded rectangle's left edge, in frame coordinates.
    pub x: u32,
    /// The re-expanded rectangle's top edge, in frame coordinates.
    pub y: u32,
    /// The re-expanded rectangle's width.
    pub width: u32,
    /// The re-expanded rectangle's height.
    pub height: u32,
    /// The luma bytes of the re-expanded rectangle.
    pub luma: Vec<u8>,
}

/// What a successful tightening answers for the generous rectangle
/// `(x0, y0)..(x1, y1)` of frame `f`: the ink box is the tight bounding
/// box of the crop's luma under its own adaptive threshold; the output
/// rectangle is the ink box moved to frame coordinates and grown by the
/// glyph margin, clamped to the frame; and the output luma is exactly
/// that rectangle's.
pub open spec fn spec_ocr_region_ok(
    f: Seq<u8>,
    x0: int,
    y0: int,
    x1: int,
    y1: int,
    reg: OcrRegion,
) -> bool {
    let ow = x1 - x0;
    let oh = y1 - y0;
    let lum = luma_of(spec_crop_rgb(f, 1920, x0, y0, ow, oh));
    let lvl = otsu_level_of(lum);
    let m = (7 * reg.ink.h + 9) / 18;
    &&& 1 <= reg.ink.w && reg.ink.x + reg.ink.w <= ow
    &&& 1 <= reg.ink.h && reg.ink.y + reg.ink.h <= oh
    &&& (forall|x: int, y: int|
        0 <= x < ow && 0 <= y < oh && #[trigger] spec_is_ink(lum, ow, x, y, lvl) ==> reg.ink.x <= x
            < reg.ink.x + reg.ink.w && reg.ink.y <= y < reg.ink.y + reg.ink.h)
    &&& (exists|y: int| 0 <= y < oh && #[trigger] spec_is_ink(lum, ow, reg.ink.x as int, y, lvl))
    &&& (exists|y: int|
        0 <= y < oh && #[trigger] spec_is_ink(lum, ow, reg.ink.x + reg.ink.w - 1, y, lvl))
    &&& (exists|x: int| 0 <= x < ow && #[trigger] spec_is_ink(lum, ow, x, reg.ink.y as int, lvl))
    &&& (exists|x: int|
        0 <= x < ow && #[trigger] spec_is_ink(lum, ow, x, reg.ink.y + reg.ink.h - 1, lvl))
    &&& reg.x == (if x0 + reg.ink.x >= m {
        x0 + reg.ink.x - m
    } else {
        0
    })
    &&& reg.y == (if y0 + reg.ink.y >= m {
        y0 + reg.ink.y - m
    } else {
        0
    })
    &&& reg.x + reg.width == (if x0 + reg.ink.x + reg.ink.w + m <= 1920 {
        x0 + reg.ink.x + reg.ink.w + m
    } else {
        1920
    })
    &&& reg.y + reg.height == (if y0 + reg.ink.y + reg.ink.h + m <= 1080 {
        y0 + reg.ink.y + reg.ink.h + m
    } else {
        1080
    })
    &&& 1 <= reg.width
    &&& 1 <= reg.height
    &&& reg.luma@ == luma_of(
        spec_crop_rgb(f, 1920, reg.x as int, reg.y as int, reg.width as int, reg.height as int),
    )
}

/// Whether the generous rectangle holds no ink at all under its own
/// adaptive threshold.
pub open spec fn spec_region_blank(f: Seq<u8>, x0: int, y0: int, x1: int, y1: int) -> bool {
    let ow = x1 - x0;
    let oh = y1 - y0;
    let lum = luma_of(spec_crop_rgb(f, 1920, x0, y0, ow, oh));
    let lvl = otsu_level_of(lum);
    forall|x: int, y: int| 0 <= x < ow && 0 <= y < oh ==> !(#[trigger] spec_is_ink(lum, ow, x, y, lvl))
}

/// Whether a captured frame can be canonicalized: a 16:9 frame is
/// accepted, and needs rescaling exactly when it is not already at the
/// canonical resolution; any other shape is an aspect-ratio mismatch.
pub fn validate_frame_dims(width: u32, height: u32) -> (r: Result<bool, ScanError>)
    ensures
        r == (if width * 9 == height * 16 && width > 0 {
            Ok::<bool, ScanError>(width != 1920)
        } else {
            Err::<bool, ScanError>(ScanError::AspectRatioMismatch)
        }),
{
    let w9: u64 = (width as u64) * 9;
    let h16: u64 = (height as u64) * 16;
    if w9 == h16 && width > 0 {
        Ok(width != 1920)
    } else {
        Err(ScanError::AspectRatioMismatch)
    }
}

/// Whether two texts are the same character sequence.
fn str_eq(a: &str, b: &str) -> (r: bool)
    ensures
        r == (a@ == b@),
{
    let n = a.unicode_len();
    if n != b.unicode_len() {
        proof {
            if a@ == b@ {
                assert(a@.len() == b@.len());
            }
        }
        return false;
    }
    let mut i: usize = 0;
    while i < n
        invariant
            i <= n,
            n == a@.len(),
            n == b@.len(),
            forall|j: int| 0 <= j < i ==> a@[j] == b@[j],
        decreases n - i,
    {
        if a.get_char(i) != b.get_char(i) {
            return false;
        }
        i += 1;
    }
    proof {
        assert(a@ =~= b@);
    }
    true
}

/// The value of a digit sequence, most significant digit first.
pub open spec fn spec_digits_value(s: Seq<char>) -> int
    decreases s.len(),
{
    if s.len() == 0 {
        0
    } else {
        spec_digits_value(s.drop_last()) * 10 + crate::datetime::digit_val(s.last())
    }
}

/// Every character is a decimal digit.
pub open spec fn spec_all_digits(s: Seq<char>) -> bool {
    forall|i: int| 0 <= i < s.len() ==> crate::datetime::is_digit(#[trigger] s[i])
}

/// What parsing a page-index text answers: an optional leading `+`, then
/// at least one digit, whose value fits the index type.
pub open spec fn spec_parse_u32(s: Seq<char>) -> Option<u32> {
    let ds = if s.len() > 0 && s[0] == '+' {
        s.drop_first()
    } else {
        s
    };
    if ds.len() > 0 && spec_all_digits(ds) && spec_digits_value(ds) <= u32::MAX {
        Some(spec_digits_value(ds) as u32)
    } else {
        None
    }
}

/// A digit sequence's value is never negative.
proof fn lemma_digits_nonneg(s: Seq<char>)
    requires
        spec_all_digits(s),
    ensures
        spec_digits_value(s) >= 0,
    decreases s.len(),
{
    if s.len() > 0 {
        assert(forall|i: int|
            0 <= i < s.drop_last().len() ==> crate::datetime::is_digit(
                #[trigger] s.drop_last()[i],
            ));
        lemma_digits_nonneg(s.drop_last());
    }
}

/// A digit sequence's value only grows as digits are appended.
proof fn lemma_digits_prefix_le(s: Seq<char>, j: int)
    requires
        spec_all_digits(s),
        0 <= j <= s.len(),
    ensures
        spec_digits_value(s.take(j)) <= spec_digits_value(s),
    decreases s.len() - j,
{
    if j == s.len() {
        assert(s.take(j) =~= s);
    } else {
        assert(s.take(j + 1).drop_last() =~= s.take(j));
        assert(forall|i: int|
            0 <= i < s.take(j).len() ==> crate::datetime::is_digit(#[trigger] s.take(j)[i]));
        lemma_digits_nonneg(s.take(j));
        assert(spec_digits_value(s.take(j + 1)) == spec_digits_value(s.take(j)) * 10
            + crate::datetime::digit_val(s[j]));
        lemma_digits_prefix_le(s, j + 1);
    }
}

/// Parses the page-index label's text.
pub fn parse_page_index(s: &str) -> (r: Result<u32, ScanError>)
    ensures
        (match r {
            Ok(v) => spec_parse_u32(s@) == Some(v),
            Err(e) => e == ScanError::FieldParseFailure && spec_parse_u32(s@) is None,
        }),
{
    let n = s.unicode_len();
    let start: usize = if n > 0 && s.get_char(0) == '+' {
        1
    } else {
        0
    };
    let ghost ds = if s@.len() > 0 && s@[0] == '+' {
        s@.drop_first()
    } else {
        s@
    };
    proof {
        assert(ds =~= s@.subrange(start as int, n as int));
    }
    if n == start {
        return Err(ScanError::FieldParseFailure);
    }
    let mut acc: u64 = 0;
    let mut i: usize = start;
    while i < n
        invariant
            start <= i <= n,
            n == s@.len(),
            start == 0 || start == 1,
            ds == s@.subrange(start as int, n as int),
            ds == (if s@.len() > 0 && s@[0] == '+' {
                s@.drop_first()
            } else {
                s@
            }),
            forall|j: int|
                0 <= j < i - start ==> crate::datetime::is_digit(#[trigger] ds[j]),
            acc == spec_digits_value(ds.take(i - start)),
            acc <= u32::MAX,
        decreases n - i,
    {
        let c = s.get_char(i);
        if !('0' <= c && c <= '9') {
            proof {
                assert(ds[i - start] == s@[i as int]);
                assert(!spec_all_digits(ds));
            }
            return Err(ScanError::FieldParseFailure);
        }
        let d = (c as u32 - '0' as u32) as u64;
        proof {
            assert(ds.take(i - start + 1).drop_last() =~= ds.take(i - start));
            assert(ds.take(i - start + 1).last() == s@[i as int]);
        }
        acc = acc * 10 + d;
        i += 1;
        if acc > 0xffff_ffff {
            proof {
                if spec_all_digits(ds) {
                    lemma_digits_prefix_le(ds, i - start);
                    assert(spec_digits_value(ds) > u32::MAX);
                }
            }
            return Err(ScanError::FieldParseFailure);
        }
    }
    proof {
        assert(ds.take(n - start) =~= ds);
        assert(spec_all_digits(ds));
        assert(spec_parse_u32(s@) == Some(acc as u32));
    }
    Ok(acc as u32)
}

/// Decodes a recognized category text by exact match against the record
/// page's labels in every supported language; any other text is a field
/// failure.
pub fn parse_item_type(s: &str) -> (r: Result<ItemType, ScanError>)
    ensures
        r == (if s@ == spec_item_type_name(ItemType::Character, Language::ChineseSimplified) || s@
            == spec_item_type_name(ItemType::Character, Language::English) {
            Ok::<ItemType, ScanError>(ItemType::Character)
        } else if s@ == spec_item_type_name(ItemType::Weapon, Language::ChineseSimplified) || s@
            == spec_item_type_name(ItemType::Weapon, Language::English) {
            Ok::<ItemType, ScanError>(ItemType::Weapon)
        } else {
            Err::<ItemType, ScanError>(ScanError::FieldParseFailure)
        }),
{
    let character_cn = ItemType::Character.display_name_in_record_page_in_game(
        Language::ChineseSimplified,
    );
    let character_en = ItemType::Character.display_name_in_record_page_in_game(Language::English);
    let weapon_cn = ItemType::Weapon.display_name_in_record_page_in_game(
        Language::ChineseSimplified,
    );
    let weapon_en = ItemType::Weapon.display_name_in_record_page_in_game(Language::English);
    if str_eq(s, character_cn) || str_eq(s, character_en) {
        Ok(ItemType::Character)
    } else if str_eq(s, weapon_cn) || str_eq(s, weapon_en) {
        Ok(ItemType::Weapon)
    } else {
        Err(ScanError::FieldParseFailure)
    }
}

/// What one capture means to the pagination controller, decided from
/// the recognized text of its page-index label: a text that parses as an
/// index makes the capture a listing page with that label — its rows may
/// still be none on an empty page — and a label whose recognition failed
/// or whose text is no index makes it no listing page at all.
pub fn observe_listing(index_text: &Result<String, ScanError>) -> (o:
    crate::paginate::Observation)
    ensures
        o == (match index_text {
            Ok(t) => (match spec_parse_u32(t@) {
                Some(v) => crate::paginate::Observation::Listing { index: v },
                None => crate::paginate::Observation::NotListing,
            }),
            Err(_) => crate::paginate::Observation::NotListing,
        }),
{
    match index_text {
        Ok(t) => match parse_page_index(t.as_str()) {
            Ok(v) => crate::paginate::Observation::Listing { index: v },
            Err(_) => crate::paginate::Observation::NotListing,
        },
        Err(_) => crate::paginate::Observation::NotListing,
    }
}

/// Row `i` has all three of its recognized fields decoded.
pub open spec fn spec_row_ok(
    names: Seq<Result<String, ScanError>>,
    types: Seq<Result<ItemType, ScanError>>,
    times: Seq<Result<u64, ScanError>>,
    i: int,
) -> bool {
    &&& names[i] is Ok
    &&& types[i] is Ok
    &&& times[i] is Ok
}

/// Joins the per-row field results into records, truncating the page at
/// the first row with any failed field: trailing unpopulated placeholder
/// rows are tolerated, and nothing after a failure is kept.
pub fn assemble_rows(
    stars: &Vec<u8>,
    names: &Vec<Result<String, ScanError>>,
    types: &Vec<Result<ItemType, ScanError>>,
    times: &Vec<Result<u64, ScanError>>,
) -> (rows: Vec<OneRecord>)
    requires
        names@.len() == stars@.len(),
        types@.len() == stars@.len(),
        times@.len() == stars@.len(),
    ensures
        rows@.len() <= stars@.len(),
        forall|i: int| 0 <= i < rows@.len() ==> #[trigger] spec_row_ok(names@, types@, times@, i),
        forall|i: int|
            0 <= i < rows@.len() ==> #[trigger] models(rows@)[i] == (RecordModel {
                star: stars@[i],
                item_name: names@[i]->Ok_0@,
                item_type: types@[i]->Ok_0,
                timestamp: times@[i]->Ok_0,
            }),
        rows@.len() < stars@.len() ==> !spec_row_ok(names@, types@, times@, rows@.len() as int),
{
    let mut rows: Vec<OneRecord> = Vec::new();
    let mut i: usize = 0;
    while i < stars.len()
        invariant
            i <= stars@.len(),
            names@.len() == stars@.len(),
            types@.len() == stars@.len(),
            times@.len() == stars@.len(),
            rows@.len() == i,
            forall|j: int| 0 <= j < i ==> #[trigger] spec_row_ok(names@, types@, times@, j),
            forall|j: int|
                0 <= j < i ==> #[trigger] models(rows@)[j] == (RecordModel {
                    star: stars@[j],
                    item_name: names@[j]->Ok_0@,
                    item_type: types@[j]->Ok_0,
                    timestamp: times@[j]->Ok_0,
                }),
        decreases stars@.len() - i,
    {
        let name = match &names[i] {
            Ok(nm) => nm.clone(),
            Err(_) => {
                proof {
                    assert forall|j: int| 0 <= j < rows@.len() implies models(rows@)[j] == rows@[j]@
                        by {}
                }
                return rows;
            },
        };
        let ty = match &types[i] {
            Ok(t) => *t,
            Err(_) => {
                proof {
                    assert forall|j: int| 0 <= j < rows@.len() implies models(rows@)[j] == rows@[j]@
                        by {}
                }
                return rows;
            },
        };
        let tm = match &times[i] {
            Ok(t) => *t,
            Err(_) => {
                proof {
                    assert forall|j: int| 0 <= j < rows@.len() implies models(rows@)[j] == rows@[j]@
                        by {}
                }
                return rows;
            },
        };
        let ghost prev = rows@;
        rows.push(OneRecord::new(stars[i], name, ty, tm));
        proof {
            assert forall|j: int|
                0 <= j < i + 1 implies #[trigger] spec_row_ok(names@, types@, times@, j) by {}
            assert forall|j: int|
                0 <= j < i + 1 implies #[trigger] models(rows@)[j] == (RecordModel {
                    star: stars@[j],
                    item_name: names@[j]->Ok_0@,
                    item_type: types@[j]->Ok_0,
                    timestamp: times@[j]->Ok_0,
                }) by {
                assert(models(rows@)[j] == rows@[j]@);
                if j < i {
                    assert(rows@[j] == prev[j]);
                    assert(models(prev)[j] == prev[j]@);
                }
            }
        }
        i += 1;
    }
    proof {
        assert forall|j: int| 0 <= j < rows@.len() implies models(rows@)[j] == rows@[j]@ by {}
    }
    rows
}

/// A page with no decodable first row has no rows at all — an empty
/// listing page is answered with zero rows, not with an error.
pub proof fn lemma_empty_page_has_no_rows(f: Seq<u8>, stars: Seq<u8>)
    requires
        spec_star_at(f, 0) is None,
        forall|j: int| 0 <= j < stars.len() ==> Some(stars[j]) == spec_star_at(f, j),
    ensures
        stars.len() == 0,
{
    if stars.len() > 0 {
        assert(Some(stars[0]) == spec_star_at(f, 0));
    }
}

} // verus!
