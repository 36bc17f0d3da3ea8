//! RGBA sprites: the library's own image type, the calls into the `image`
//! crate that decode, crop, scale and overlay them, and the sprite pipeline
//! built on those calls.
use vstd::prelude::*;

verus! {

// ---------------------------------------------------------------------------
// The sprite type
// ---------------------------------------------------------------------------

/// What a sprite holds: its size and its RGBA bytes, row by row.
pub struct Rgba {
    pub width: u32,
    pub height: u32,
    pub data: Seq<u8>,
}

/// The bytes hold exactly four per pixel, and fit in one allocation.
pub open spec fn well_sized(m: Rgba) -> bool {
    m.data.len() == 4 * m.width * m.height && 4 * m.width * m.height <= isize::MAX
}

/// Offset of pixel `(x, y)` in the bytes.
pub open spec fn offset(m: Rgba, x: int, y: int) -> int {
    4 * (y * m.width + x)
}

/// The pixel at `(x, y)`: red, green, blue, alpha.
pub open spec fn px(m: Rgba, x: int, y: int) -> (u8, u8, u8, u8) {
    let o = offset(m, x, y);
    (m.data[o], m.data[o + 1], m.data[o + 2], m.data[o + 3])
}

pub open spec fn in_bounds(m: Rgba, x: int, y: int) -> bool {
    0 <= x < m.width && 0 <= y < m.height
}

/// Two images with the same size and the same pixels.
pub open spec fn same_pixels(a: Rgba, b: Rgba) -> bool {
    a.width == b.width && a.height == b.height && forall|x: int, y: int|
        #![trigger px(a, x, y)]
        in_bounds(a, x, y) ==> px(a, x, y) == px(b, x, y)
}

pub proof fn lemma_offset_bounds(m: Rgba, x: int, y: int)
    requires
        in_bounds(m, x, y),
    ensures
        0 <= y * m.width,
        y * m.width + x + 1 <= m.width * m.height,
        4 * m.width * m.height == 4 * (m.width * m.height),
        0 <= offset(m, x, y),
        offset(m, x, y) + 4 <= 4 * m.width * m.height,
{
    assert(4 * m.width * m.height == 4 * (m.width * m.height)) by (nonlinear_arith);
    assert(0 <= y * m.width) by (nonlinear_arith)
        requires
            0 <= y,
    ;
    assert(y * m.width + x + 1 <= m.width * m.height) by (nonlinear_arith)
        requires
            0 <= x < m.width,
            0 <= y < m.height,
    ;
}

/// An RGBA image held as plain bytes, four per pixel, row by row.
pub struct Sprite {
    width: u32,
    height: u32,
    data: Vec<u8>,
}

impl View for Sprite {
    type V = Rgba;

    closed spec fn view(&self) -> Rgba {
        Rgba { width: self.width, height: self.height, data: self.data@ }
    }
}

impl Sprite {
    #[verifier::type_invariant]
    spec fn sized(self) -> bool {
        self.data@.len() == 4 * self.width * self.height && 4 * self.width * self.height <= isize::MAX
    }

    /// An image of `width` by `height` pixels from its RGBA bytes; as
    /// `ImageBuffer::from_raw`, `None` when there are too few bytes, and bytes
    /// beyond the image are not part of it. (`None` too for a size no
    /// allocation can hold.)
    pub fn from_raw(width: u32, height: u32, data: Vec<u8>) -> (r: Option<Sprite>)
        ensures
            data@.len() >= 4 * width * height && 4 * width * height <= isize::MAX <==> r is Some,
            r matches Some(s) ==> s@.width == width && s@.height == height && s@.data
                == data@.take(4 * width * height),
    {
        assert((width as u128) * (height as u128) <= 0xffff_ffff * 0xffff_ffff) by (nonlinear_arith)
            requires
                width <= 0xffff_ffff,
                height <= 0xffff_ffff,
        ;
        let need: u128 = 4 * ((width as u128) * (height as u128));
        assert(need == 4 * width * height) by (nonlinear_arith)
            requires
                need == 4 * ((width as u128) * (height as u128)),
        ;
        if (data.len() as u128) < need || need > isize::MAX as u128 {
            return None;
        }
        let n = need as usize;
        let mut data = data;
        data.truncate(n);
        Some(Sprite { width, height, data })
    }

    /// An image of `width` by `height` pixels from exactly its RGBA bytes.
    pub(crate) fn from_exact(width: u32, height: u32, data: Vec<u8>) -> (r: Sprite)
        requires
            data@.len() == 4 * width * height,
            4 * width * height <= isize::MAX,
        ensures
            r@ == (Rgba { width, height, data: data@ }),
    {
        Sprite { width, height, data }
    }

    pub fn width(&self) -> (w: u32)
        ensures
            w == self@.width,
            well_sized(self@),
    {
        proof {
            use_type_invariant(self);
        }
        self.width
    }

    pub fn height(&self) -> (h: u32)
        ensures
            h == self@.height,
            well_sized(self@),
    {
        proof {
            use_type_invariant(self);
        }
        self.height
    }

    /// The RGBA bytes.
    pub fn bytes(&self) -> (d: &Vec<u8>)
        ensures
            d@ == self@.data,
            well_sized(self@),
    {
        proof {
            use_type_invariant(self);
        }
        &self.data
    }

    /// The pixel at `(x, y)`.
    pub fn pixel(&self, x: u32, y: u32) -> (p: (u8, u8, u8, u8))
        requires
            x < self@.width,
            y < self@.height,
        ensures
            p == px(self@, x as int, y as int),
    {
        proof {
            use_type_invariant(self);
            lemma_offset_bounds(self@, x as int, y as int);
        }
        let n = self.data.len();
        assert(n == 4 * (self.width * self.height)) by {
            lemma_offset_bounds(self@, x as int, y as int);
        }
        let o = 4 * ((y as usize) * (self.width as usize) + (x as usize));
        (self.data[o], self.data[o + 1], self.data[o + 2], self.data[o + 3])
    }
}

// ---------------------------------------------------------------------------
// Calls into the `image` crate
// ---------------------------------------------------------------------------

#[verifier::external_type_specification]
#[verifier::external_body]
pub struct ExImageError(image::ImageError);

/// What `image::load_from_memory` followed by `DynamicImage::to_rgba8` gives
/// for the encoded bytes: width, height and RGBA bytes, or `None` where the
/// bytes are not an image the crate decodes.
pub uninterp spec fn decoded_rgba(bytes: Seq<u8>) -> Option<(u32, u32, Seq<u8>)>;

/// Calls `image::load_from_memory` and converts the result with
/// `DynamicImage::to_rgba8`. The contract claims that the outcome is a
/// function of the bytes (named `decoded_rgba`), and that the RGBA buffer
/// holds exactly four bytes per pixel (so it fits in one allocation).
#[verifier::external_body]
pub(crate) fn decode_rgba(bytes: &[u8]) -> (r: Result<(u32, u32, Vec<u8>), image::ImageError>)
    ensures
        match r {
            Ok((w, h, d)) => decoded_rgba(bytes@) == Some((w, h, d@)) && d@.len() == 4 * w * h && 4 * w * h
                <= isize::MAX,
            Err(_) => decoded_rgba(bytes@) is None,
        },
{
    match image::load_from_memory(bytes) {
        Ok(img) => {
            let rgba = img.to_rgba8();
            let (w, h) = rgba.dimensions();
            Ok((w, h, rgba.into_raw()))
        },
        Err(e) => Err(e),
    }
}

/// The message of an `image::ImageError`, by its `Display` impl. Nothing is
/// claimed of the text.
#[verifier::external_body]
pub(crate) fn image_error_text(e: &image::ImageError) -> String {
    e.to_string()
}

/// The `w` by `h` block of `m` whose top-left corner is `(x, y)`.
pub open spec fn sub_image(m: Rgba, x: int, y: int, w: u32, h: u32) -> Rgba {
    Rgba {
        width: w,
        height: h,
        data: Seq::new(
            (4 * w * h) as nat,
            |k: int| m.data[offset(m, x + (k / 4) % (w as int), y + (k / 4) / (w as int)) + k % 4],
        ),
    }
}

/// Calls `image::imageops::crop_imm` on the image and `SubImage::to_image`
/// on the view it returns: the `w` by `h` block at `(x, y)`, which lies
/// inside the image.
#[verifier::external_body]
pub(crate) fn crop_rgba(s: &Sprite, x: u32, y: u32, w: u32, h: u32) -> (r: Sprite)
    requires
        x + w <= s@.width,
        y + h <= s@.height,
    ensures
        r@.width == w,
        r@.height == h,
        forall|i: int, j: int|
            #![trigger px(r@, i, j)]
            0 <= i < w && 0 <= j < h ==> px(r@, i, j) == px(s@, x + i, y + j),
{
    let img = image::RgbaImage::from_raw(s.width, s.height, s.data.clone()).unwrap();
    let out = image::imageops::crop_imm(&img, x, y, w, h).to_image();
    let (ow, oh) = out.dimensions();
    Sprite { width: ow, height: oh, data: out.into_raw() }
}

/// What `image::imageops::resize` with `FilterType::Nearest` gives for an
/// image of the given size and bytes and a target size.
pub uninterp spec fn nearest_resized(data: Seq<u8>, width: u32, height: u32, new_width: u32, new_height: u32) -> Seq<u8>;

/// Calls `image::imageops::resize` with `FilterType::Nearest`. The contract
/// claims the target size and names the bytes; how pixels are sampled is not
/// stated. The call first resamples the columns into a floating-point image of the
/// source's width by the new height, which must fit in one allocation.
#[verifier::external_body]
pub(crate) fn resize_nearest(s: &Sprite, nw: u32, nh: u32) -> (r: Sprite)
    requires
        4 * nw * nh <= isize::MAX,
        16 * s@.width * nh <= isize::MAX,
    ensures
        r@.width == nw,
        r@.height == nh,
        r@.data == nearest_resized(s@.data, s@.width, s@.height, nw, nh),
{
    let img = image::RgbaImage::from_raw(s.width, s.height, s.data.clone()).unwrap();
    let out = image::imageops::resize(&img, nw, nh, image::imageops::FilterType::Nearest);
    let (ow, oh) = out.dimensions();
    Sprite { width: ow, height: oh, data: out.into_raw() }
}

/// Calls `image::ImageBuffer::from_pixel` with a fully transparent black
/// pixel: every byte of the result is zero.
#[verifier::external_body]
pub(crate) fn blank_rgba(w: u32, h: u32) -> (r: Sprite)
    requires
        4 * w * h <= isize::MAX,
    ensures
        r@.width == w,
        r@.height == h,
        r@.data == Seq::new((4 * w * h) as nat, |k: int| 0u8),
{
    let out = image::ImageBuffer::from_pixel(w, h, image::Rgba([0u8, 0, 0, 0]));
    Sprite { width: w, height: h, data: out.into_raw() }
}

/// What `image::imageops::overlay` leaves in the bottom image after placing
/// the top image with its corner at `(x, y)`.
pub uninterp spec fn overlaid(bottom: Seq<u8>, bw: u32, bh: u32, top: Seq<u8>, tw: u32, th: u32, x: u32, y: u32) -> Seq<u8>;

/// The top image covers bottom pixel `(i, j)` when placed at `(x, y)`.
pub open spec fn covers(tw: u32, th: u32, x: u32, y: u32, i: int, j: int) -> bool {
    x <= i < x + tw && y <= j < y + th
}

/// Calls `image::imageops::overlay`, which blends each covered pixel with the
/// top image's pixel over it. The contract claims the size is kept, pixels
/// not covered are kept, a fully transparent top pixel keeps the one below,
/// and a fully opaque top pixel replaces it; the blend of a partly
/// transparent pixel is computed in floating point and is only named.
#[verifier::external_body]
pub(crate) fn overlay_at(bottom: &mut Sprite, top: &Sprite, x: u32, y: u32)
    ensures
        final(bottom)@.width == old(bottom)@.width,
        final(bottom)@.height == old(bottom)@.height,
        final(bottom)@.data == overlaid(
            old(bottom)@.data,
            old(bottom)@.width,
            old(bottom)@.height,
            top@.data,
            top@.width,
            top@.height,
            x,
            y,
        ),
        forall|i: int, j: int|
            #![trigger px(final(bottom)@, i, j)]
            in_bounds(old(bottom)@, i, j) ==> {
                &&& !covers(top@.width, top@.height, x, y, i, j) ==> px(final(bottom)@, i, j) == px(
                    old(bottom)@,
                    i,
                    j,
                )
                &&& covers(top@.width, top@.height, x, y, i, j) && px(top@, i - x, j - y).3 == 0
                    ==> px(final(bottom)@, i, j) == px(old(bottom)@, i, j)
                &&& covers(top@.width, top@.height, x, y, i, j) && px(top@, i - x, j - y).3 == 255
                    ==> px(final(bottom)@, i, j) == px(top@, i - x, j - y)
            },
{
    let mut b = image::RgbaImage::from_raw(bottom.width, bottom.height, bottom.data.clone()).unwrap();
    let t = image::RgbaImage::from_raw(top.width, top.height, top.data.clone()).unwrap();
    image::imageops::overlay(&mut b, &t, x as i64, y as i64);
    bottom.data = b.into_raw();
}

// ---------------------------------------------------------------------------
// Pixel bookkeeping
// ---------------------------------------------------------------------------

/// Byte `k` of an image lies in pixel `((k / 4) % w, (k / 4) / w)`, channel
/// `k % 4`, and back.
pub proof fn lemma_byte_pixel(w: int, h: int, i: int, j: int, c: int)
    requires
        0 <= i < w,
        0 <= j < h,
        0 <= c < 4,
    ensures
        (4 * (j * w + i) + c) / 4 == j * w + i,
        (4 * (j * w + i) + c) % 4 == c,
        (j * w + i) % w == i,
        (j * w + i) / w == j,
        0 <= 4 * (j * w + i) + c < 4 * w * h,
{
    vstd::arithmetic::div_mod::lemma_fundamental_div_mod_converse(4 * (j * w + i) + c, 4, j * w + i, c);
    vstd::arithmetic::div_mod::lemma_fundamental_div_mod_converse(j * w + i, w, j, i);
    assert(0 <= j * w) by (nonlinear_arith)
        requires
            0 <= j,
            0 <= w,
    ;
    assert(j * w + i < w * h) by (nonlinear_arith)
        requires
            0 <= i < w,
            0 <= j < h,
    ;
    assert(4 * w * h == 4 * (w * h)) by (nonlinear_arith);
    assert(j * w == w * j) by (nonlinear_arith);
}

pub proof fn lemma_index_pixel(w: int, h: int, k: int)
    requires
        0 < w,
        0 <= k < 4 * w * h,
    ensures
        0 <= (k / 4) % w < w,
        0 <= (k / 4) / w < h,
        k == 4 * (((k / 4) / w) * w + (k / 4) % w) + k % 4,
        0 <= k % 4 < 4,
{
    vstd::arithmetic::div_mod::lemma_fundamental_div_mod(k, 4);
    vstd::arithmetic::div_mod::lemma_fundamental_div_mod(k / 4, w);
    assert(4 * w * h == 4 * (w * h)) by (nonlinear_arith);
    assert(0 <= k / 4 < w * h) by (nonlinear_arith)
        requires
            0 <= k < 4 * (w * h),
    ;
    assert(0 <= (k / 4) / w < h) by (nonlinear_arith)
        requires
            0 <= k / 4 < w * h,
            0 < w,
    ;
    assert(w * ((k / 4) / w) == ((k / 4) / w) * w) by (nonlinear_arith);
}

/// Two well-sized images of one size with the same pixels hold the same bytes.
pub proof fn lemma_same_pixels_same_data(a: Rgba, b: Rgba)
    requires
        well_sized(a),
        well_sized(b),
        same_pixels(a, b),
    ensures
        a == b,
{
    assert forall|k: int| 0 <= k < a.data.len() implies a.data[k] == b.data[k] by {
        let w = a.width as int;
        let h = a.height as int;
        assert(w > 0) by (nonlinear_arith)
            requires
                0 <= k < 4 * w * h,
                w >= 0,
                h >= 0,
        ;
        lemma_index_pixel(w, h, k);
        let x = (k / 4) % w;
        let y = (k / 4) / w;
        assert(px(a, x, y) == px(b, x, y));
    }
    assert(a.data =~= b.data);
}

/// The pixels of `sub_image` are those of the block it cuts out.
pub proof fn lemma_sub_image_px(m: Rgba, x: int, y: int, w: u32, h: u32, i: int, j: int)
    requires
        0 <= i < w,
        0 <= j < h,
        well_sized(m),
        0 <= x,
        0 <= y,
        x + w <= m.width,
        y + h <= m.height,
    ensures
        px(sub_image(m, x, y, w, h), i, j) == px(m, x + i, y + j),
        well_sized(sub_image(m, x, y, w, h)),
{
    lemma_byte_pixel(w as int, h as int, i, j, 0);
    lemma_byte_pixel(w as int, h as int, i, j, 1);
    lemma_byte_pixel(w as int, h as int, i, j, 2);
    lemma_byte_pixel(w as int, h as int, i, j, 3);
    assert(4 * w * h <= 4 * m.width * m.height) by (nonlinear_arith)
        requires
            0 <= w <= m.width,
            0 <= h <= m.height,
    ;
}

// ---------------------------------------------------------------------------
// Cropping to the content
// ---------------------------------------------------------------------------

/// A fully opaque pixel.
pub open spec fn opaque(m: Rgba, x: int, y: int) -> bool {
    in_bounds(m, x, y) && px(m, x, y).3 == 255
}

pub open spec fn any_opaque(m: Rgba) -> bool {
    exists|x: int, y: int| opaque(m, x, y)
}

/// `[x0, x1] × [y0, y1]` is the bounding box of the fully opaque pixels:
/// it holds all of them and each of its edges touches one.
pub open spec fn is_bbox(m: Rgba, x0: int, y0: int, x1: int, y1: int) -> bool {
    &&& 0 <= x0 <= x1 < m.width
    &&& 0 <= y0 <= y1 < m.height
    &&& forall|x: int, y: int| #[trigger] opaque(m, x, y) ==> x0 <= x <= x1 && y0 <= y <= y1
    &&& exists|y: int| opaque(m, x0, y)
    &&& exists|y: int| opaque(m, x1, y)
    &&& exists|x: int| opaque(m, x, y0)
    &&& exists|x: int| opaque(m, x, y1)
}

pub proof fn lemma_bbox_unique(m: Rgba, a: (int, int, int, int), b: (int, int, int, int))
    requires
        is_bbox(m, a.0, a.1, a.2, a.3),
        is_bbox(m, b.0, b.1, b.2, b.3),
    ensures
        a == b,
{
    let ya = choose|y: int| opaque(m, a.0, y);
    let yb = choose|y: int| opaque(m, b.0, y);
    assert(opaque(m, a.0, ya));
    assert(opaque(m, b.0, yb));
    let yc = choose|y: int| opaque(m, a.2, y);
    let yd = choose|y: int| opaque(m, b.2, y);
    assert(opaque(m, a.2, yc));
    assert(opaque(m, b.2, yd));
    let xa = choose|x: int| opaque(m, x, a.1);
    let xb = choose|x: int| opaque(m, x, b.1);
    assert(opaque(m, xa, a.1));
    assert(opaque(m, xb, b.1));
    let xc = choose|x: int| opaque(m, x, a.3);
    let xd = choose|x: int| opaque(m, x, b.3);
    assert(opaque(m, xc, a.3));
    assert(opaque(m, xd, b.3));
}

/// The image cut down to the bounding box of its fully opaque pixels, or
/// the image itself when it has none.
pub open spec fn cropped(m: Rgba) -> Rgba {
    if any_opaque(m) {
        let b = choose|b: (int, int, int, int)| is_bbox(m, b.0, b.1, b.2, b.3);
        sub_image(m, b.0, b.1, (b.2 - b.0 + 1) as u32, (b.3 - b.1 + 1) as u32)
    } else {
        m
    }
}

/// Scanned before `(x, y)` in row-major order.
spec fn before(xx: int, yy: int, x: int, y: int) -> bool {
    yy < y || (yy == y && xx < x)
}

/// Crops the image to the bounding box of fully-opaque pixels,
/// removing any transparent margins from the source image.
pub fn crop_to_content(img: Sprite) -> (r: Sprite)
    ensures
        r@ == cropped(img@),
{
    let width = img.width();
    let height = img.height();
    let mut min_x = width;
    let mut min_y = height;
    let mut max_x: u32 = 0;
    let mut max_y: u32 = 0;
    let mut found = false;
    let ghost m = img@;
    let ghost mut wit: (int, int, int, int) = (0, 0, 0, 0);
    let mut y: u32 = 0;
    while y < height
        invariant
            m == img@,
            width == m.width,
            height == m.height,
            y <= height,
            found <==> exists|xx: int, yy: int| opaque(m, xx, yy) && yy < y,
            found ==> {
                &&& min_x <= max_x < width && min_y <= max_y < height
                &&& forall|xx: int, yy: int| #[trigger] opaque(m, xx, yy) && yy < y ==> min_x <= xx <= max_x && min_y <= yy <= max_y
                &&& opaque(m, min_x as int, wit.0)
                &&& opaque(m, max_x as int, wit.1)
                &&& opaque(m, wit.2, min_y as int)
                &&& opaque(m, wit.3, max_y as int)
            },
            !found ==> min_x == width && min_y == height && max_x == 0 && max_y == 0,
        decreases height - y,
    {
        let mut x: u32 = 0;
        while x < width
            invariant
                m == img@,
                width == m.width,
                height == m.height,
                y < height,
                x <= width,
                found <==> exists|xx: int, yy: int| opaque(m, xx, yy) && before(xx, yy, x as int, y as int),
                found ==> {
                    &&& min_x <= max_x < width && min_y <= max_y < height
                    &&& forall|xx: int, yy: int| #[trigger] opaque(m, xx, yy) && before(xx, yy, x as int, y as int) ==> min_x <= xx <= max_x && min_y <= yy <= max_y
                    &&& opaque(m, min_x as int, wit.0)
                    &&& opaque(m, max_x as int, wit.1)
                    &&& opaque(m, wit.2, min_y as int)
                    &&& opaque(m, wit.3, max_y as int)
                },
                !found ==> min_x == width && min_y == height && max_x == 0 && max_y == 0,
            decreases width - x,
        {
            let p = img.pixel(x, y);
            if p.3 == 255 {
                assert(opaque(m, x as int, y as int));
                if x < min_x {
                    min_x = x;
                    proof { wit.0 = y as int; }
                }
                if y < min_y {
                    min_y = y;
                    proof { wit.2 = x as int; }
                }
                if x > max_x || !found {
                    max_x = x;
                    proof { wit.1 = y as int; }
                }
                if y > max_y || !found {
                    max_y = y;
                    proof { wit.3 = x as int; }
                }
                found = true;
            }
            assert forall|xx: int, yy: int| opaque(m, xx, yy) && before(xx, yy, x + 1, y as int) implies
                before(xx, yy, x as int, y as int) || (xx == x && yy == y) by {}
            x = x + 1;
        }
        assert forall|xx: int, yy: int| opaque(m, xx, yy) && yy < y + 1 implies before(xx, yy, width as int, y as int) by {}
        y = y + 1;
    }
    if !found {
        assert(!any_opaque(m));
        return img;
    }
    assert(is_bbox(m, min_x as int, min_y as int, max_x as int, max_y as int));
    let w = max_x - min_x + 1;
    let h = max_y - min_y + 1;
    let r = crop_rgba(&img, min_x, min_y, w, h);
    proof {
        let t = (min_x as int, min_y as int, max_x as int, max_y as int);
        assert(is_bbox(m, t.0, t.1, t.2, t.3));
        assert(any_opaque(m));
        let b = choose|b: (int, int, int, int)| is_bbox(m, b.0, b.1, b.2, b.3);
        lemma_bbox_unique(m, b, t);
        let s = sub_image(m, min_x as int, min_y as int, w, h);
        assert(s == cropped(m));
        assert forall|i: int, j: int| #![trigger px(r@, i, j)] in_bounds(r@, i, j) implies px(r@, i, j) == px(s, i, j) by {
            lemma_sub_image_px(m, min_x as int, min_y as int, w, h, i, j);
        }
        lemma_sub_image_px(m, min_x as int, min_y as int, w, h, 0, 0);
    }
    let _ = r.width();
    proof {
        let s = sub_image(m, min_x as int, min_y as int, w, h);
        lemma_same_pixels_same_data(r@, s);
    }
    r
}

} // verus!
