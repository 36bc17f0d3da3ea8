//! From a downloaded sprite file to colorscript text: decode, crop, scale,
//! pad, convert; and the alpha census that diagnoses a sprite.
use vstd::prelude::*;
use crate::text::{views};
use crate::ansi::{art_spec, image_to_ansi_art, text_rows};
use crate::sprite::{
    Rgba, Sprite, blank_rgba, covers, crop_to_content, cropped, decode_rgba, decoded_rgba,
    image_error_text, in_bounds, nearest_resized, overlaid, overlay_at, px, resize_nearest,
};
use crate::text::{dec, push_char, push_dec, push_str};

verus! {

broadcast use vstd::string::group_string_axioms;

/// Sprites taller than this (in pixels) are scaled down by 1.5x.
pub const HEIGHT_THRESHOLD: u32 = 64;

/// Uniform transparent padding added on every side after cropping.
pub const PADDING: u32 = 1;

// ---------------------------------------------------------------------------
// Scaling
// ---------------------------------------------------------------------------

/// `n / 1.5` rounded to the nearest integer (`2n/3` is never a tie).
pub open spec fn scaled(n: u32) -> u32 {
    ((2 * n + 1) / 3) as u32
}

/// The image scaled down by 1.5x with nearest-neighbour sampling when it is
/// taller than `HEIGHT_THRESHOLD`, else the image itself.
pub open spec fn resized(m: Rgba) -> Rgba {
    if m.height > HEIGHT_THRESHOLD {
        Rgba {
            width: scaled(m.width),
            height: scaled(m.height),
            data: nearest_resized(m.data, m.width, m.height, scaled(m.width), scaled(m.height)),
        }
    } else {
        m
    }
}

fn scale_down(n: u32) -> (r: u32)
    ensures
        r == scaled(n),
        r <= n,
{
    ((2 * (n as u64) + 1) / 3) as u32
}

/// The resampler's working copy of a tall image (four floating-point channels, 16
/// bytes, per pixel of the source's width by the new height) fits in one
/// allocation.
pub open spec fn can_resize(m: Rgba) -> bool {
    m.height > HEIGHT_THRESHOLD ==> 16 * m.width * scaled(m.height) <= isize::MAX
}

/// Scales the image down by 1.5x if its height exceeds `HEIGHT_THRESHOLD`,
/// using nearest-neighbour filtering.
pub fn resize_if_too_large(img: Sprite) -> (r: Sprite)
    requires
        can_resize(img@),
    ensures
        r@ == resized(img@),
{
    let w = img.width();
    let h = img.height();
    if h > HEIGHT_THRESHOLD {
        let nw = scale_down(w);
        let nh = scale_down(h);
        assert(4 * nw * nh <= 4 * w * h) by (nonlinear_arith)
            requires
                nw <= w,
                nh <= h,
        ;
        resize_nearest(&img, nw, nh)
    } else {
        img
    }
}

// ---------------------------------------------------------------------------
// Padding
// ---------------------------------------------------------------------------

/// The image on a fully transparent canvas `pad` pixels larger on every side.
pub open spec fn padded(m: Rgba, pad: u32) -> Rgba {
    let w = (m.width + 2 * pad) as u32;
    let h = (m.height + 2 * pad) as u32;
    Rgba {
        width: w,
        height: h,
        data: overlaid(Seq::new((4 * w * h) as nat, |k: int| 0u8), w, h, m.data, m.width, m.height, pad, pad),
    }
}

/// The padded image fits in `u32` sizes and in one allocation.
pub open spec fn can_pad(m: Rgba, pad: u32) -> bool {
    m.width + 2 * pad <= u32::MAX && m.height + 2 * pad <= u32::MAX && 4 * (m.width + 2 * pad) * (
    m.height + 2 * pad) <= isize::MAX
}

/// `outer` is `inner` inside a margin of `pad` pixels: the margin is
/// transparent black; inside it, fully opaque pixels are kept and fully
/// transparent ones become transparent black.
pub open spec fn in_margin(outer: Rgba, inner: Rgba, pad: u32) -> bool {
    forall|i: int, j: int|
        #![trigger px(outer, i, j)]
        in_bounds(outer, i, j) ==> {
            &&& !covers(inner.width, inner.height, pad, pad, i, j) ==> px(outer, i, j) == (0u8, 0u8, 0u8, 0u8)
            &&& covers(inner.width, inner.height, pad, pad, i, j) && px(inner, i - pad, j - pad).3 == 0
                ==> px(outer, i, j) == (0u8, 0u8, 0u8, 0u8)
            &&& covers(inner.width, inner.height, pad, pad, i, j) && px(inner, i - pad, j - pad).3 == 255
                ==> px(outer, i, j) == px(inner, i - pad, j - pad)
        }
}

/// Adds `pad` pixels of fully-transparent space on every side of the image.
pub fn add_padding(img: Sprite, pad: u32) -> (r: Sprite)
    requires
        can_pad(img@, pad),
    ensures
        r@ == padded(img@, pad),
        r@.width == img@.width + 2 * pad,
        r@.height == img@.height + 2 * pad,
        in_margin(r@, img@, pad),
{
    let w = img.width();
    let h = img.height();
    let mut canvas = blank_rgba(w + 2 * pad, h + 2 * pad);
    let ghost blank = canvas@;
    overlay_at(&mut canvas, &img, pad, pad);
    proof {
        assert forall|i: int, j: int| #![trigger px(blank, i, j)] in_bounds(blank, i, j) implies px(blank, i, j) == (0u8, 0u8, 0u8, 0u8) by {
            crate::sprite::lemma_offset_bounds(blank, i, j);
        }
        assert forall|i: int, j: int| #![trigger px(canvas@, i, j)] in_bounds(canvas@, i, j) implies {
            &&& !covers(w, h, pad, pad, i, j) ==> px(canvas@, i, j) == (0u8, 0u8, 0u8, 0u8)
            &&& covers(w, h, pad, pad, i, j) && px(img@, i - pad, j - pad).3 == 0 ==> px(canvas@, i, j) == (0u8, 0u8, 0u8, 0u8)
            &&& covers(w, h, pad, pad, i, j) && px(img@, i - pad, j - pad).3 == 255 ==> px(canvas@, i, j) == px(img@, i - pad, j - pad)
        } by {
            assert(px(blank, i, j) == (0u8, 0u8, 0u8, 0u8));
        }
    }
    canvas
}

// ---------------------------------------------------------------------------
// Decoding and the whole pipeline
// ---------------------------------------------------------------------------

/// Why a sprite could not be turned into art.
pub enum SpriteError {
    /// The bytes are not an image the decoder reads; the decoder's message.
    Decode(String),
    /// The image is too large to convert.
    TooLarge,
}

/// The decoded image, as the library holds it.
pub open spec fn decoded_image(bytes: Seq<u8>) -> Option<Rgba> {
    match decoded_rgba(bytes) {
        Some((w, h, d)) => Some(Rgba { width: w, height: h, data: d }),
        None => None,
    }
}

/// Decodes an encoded image (PNG) into an RGBA sprite.
pub fn decode_sprite(bytes: &[u8]) -> (r: Result<Sprite, SpriteError>)
    ensures
        decoded_rgba(bytes@) is None <==> r is Err,
        r matches Err(e) ==> e is Decode,
        r matches Ok(s) ==> decoded_image(bytes@) == Some(s@),
{
    match decode_rgba(bytes) {
        Ok((w, h, d)) => Ok(Sprite::from_exact(w, h, d)),
        Err(e) => Err(SpriteError::Decode(image_error_text(&e))),
    }
}

/// Crop, scale and pad, as the art is drawn from.
pub open spec fn prepared(m: Rgba) -> Rgba {
    padded(resized(cropped(m)), PADDING)
}

/// The pipeline's sizes stay within what each step can hold.
pub open spec fn pipeline_fits(m: Rgba) -> bool {
    &&& can_resize(cropped(m))
    &&& can_pad(resized(cropped(m)), PADDING)
    &&& prepared(m).height < u32::MAX
    &&& prepared(m).width * text_rows(prepared(m)) * 30 <= u32::MAX
}

/// Turns an encoded sprite into colorscript text: decode, crop to the opaque
/// content, scale down when tall, pad by `PADDING`, convert to ANSI art.
pub fn process_pokemon(bytes: &[u8]) -> (r: Result<String, SpriteError>)
    ensures
        decoded_rgba(bytes@) is None <==> r matches Err(SpriteError::Decode(_)),
        decoded_image(bytes@) matches Some(m) ==> (pipeline_fits(m) <==> r is Ok) && (!pipeline_fits(
            m,
        ) <==> r matches Err(SpriteError::TooLarge)),
        r matches Ok(art) ==> decoded_image(bytes@) matches Some(m) && art@ == art_spec(prepared(m))
            && in_margin(prepared(m), resized(cropped(m)), PADDING),
{
    let img = decode_sprite(bytes)?;
    let ghost m = img@;
    let img = crop_to_content(img);
    let cw = img.width();
    let ch = img.height();
    if ch > HEIGHT_THRESHOLD {
        let nh = scale_down(ch) as u128;
        assert(16 * (cw as u128) * nh <= 16 * 0xffff_ffff * 0xffff_ffff) by (nonlinear_arith)
            requires
                cw <= 0xffff_ffff,
                nh <= 0xffff_ffff,
        ;
        if 16 * (cw as u128) * nh > isize::MAX as u128 {
            return Err(SpriteError::TooLarge);
        }
    }
    let img = resize_if_too_large(img);
    let w = img.width();
    let h = img.height();
    if w as u64 + 2 * (PADDING as u64) > u32::MAX as u64 || h as u64 + 2 * (PADDING as u64) > u32::MAX as u64 {
        return Err(SpriteError::TooLarge);
    }
    let pw = (w + 2 * PADDING) as u128;
    let ph = (h + 2 * PADDING) as u128;
    assert(pw * ph <= 0xffff_ffff * 0xffff_ffff) by (nonlinear_arith)
        requires
            pw <= 0xffff_ffff,
            ph <= 0xffff_ffff,
    ;
    if 4 * (pw * ph) > isize::MAX as u128 {
        assert(4 * (pw * ph) == 4 * pw * ph) by (nonlinear_arith);
        return Err(SpriteError::TooLarge);
    }
    assert(4 * (pw * ph) == 4 * pw * ph) by (nonlinear_arith);
    let ghost inner = img@;
    let img = add_padding(img, PADDING);
    assert(in_margin(img@, inner, PADDING));
    let fw = img.width();
    let fh = img.height();
    if fh == u32::MAX {
        return Err(SpriteError::TooLarge);
    }
    let rows = (fh as u128 + 1) / 2;
    assert((fw as u128) * rows <= 0xffff_ffff * 0xffff_ffff) by (nonlinear_arith)
        requires
            fw <= 0xffff_ffff,
            rows <= 0xffff_ffff,
    ;
    if (fw as u128) * rows * 30 > u32::MAX as u128 {
        return Err(SpriteError::TooLarge);
    }
    Ok(image_to_ansi_art(&img))
}

/// Address of a Pokemon's sprite on pokemondb.
pub open spec fn sprite_url_spec(name: Seq<char>) -> Seq<char> {
    "https://img.pokemondb.net/sprites/sword-shield/icon/"@ + name + ".png"@
}

pub fn sprite_url(name: &str) -> (url: String)
    ensures
        url@ == sprite_url_spec(name@),
{
    let mut url = String::new();
    push_str(&mut url, "https://img.pokemondb.net/sprites/sword-shield/icon/");
    push_str(&mut url, name);
    push_str(&mut url, ".png");
    assert(url@ =~= sprite_url_spec(name@));
    url
}

// ---------------------------------------------------------------------------
// Alpha census
// ---------------------------------------------------------------------------

pub open spec fn semi_line(x: int, y: int, p: (u8, u8, u8, u8)) -> Seq<char> {
    "  semi-transparent ("@ + dec(x as nat) + seq![','] + dec(y as nat) + ") rgba=("@ + dec(
        p.0 as nat,
    ) + seq![','] + dec(p.1 as nat) + seq![','] + dec(p.2 as nat) + seq![','] + dec(p.3 as nat)
        + seq![')']
}

/// Census of the first `n` pixels in row-major order: a report line for each
/// partly transparent one, and the counts of fully opaque, partly
/// transparent and fully transparent ones.
pub open spec fn census(m: Rgba, n: nat) -> (Seq<Seq<char>>, nat, nat, nat)
    decreases n,
{
    if n == 0 || m.width == 0 {
        (Seq::empty(), 0, 0, 0)
    } else {
        let prev = census(m, (n - 1) as nat);
        let x = (n - 1) % (m.width as int);
        let y = (n - 1) / (m.width as int);
        let p = px(m, x, y);
        if p.3 == 255 {
            (prev.0, prev.1 + 1, prev.2, prev.3)
        } else if p.3 == 0 {
            (prev.0, prev.1, prev.2, prev.3 + 1)
        } else {
            (prev.0.push(semi_line(x, y, p)), prev.1, prev.2 + 1, prev.3)
        }
    }
}

/// The report on a sprite's alpha values: its size, each partly transparent
/// pixel, and the three counts.
pub open spec fn inspect_spec(m: Rgba) -> Seq<Seq<char>> {
    let c = census(m, (m.width * m.height) as nat);
    seq!["Raw sprite: "@ + dec(m.width as nat) + seq!['x'] + dec(m.height as nat)] + c.0 + seq![
        "fully opaque (alpha=255): "@ + dec(c.1),
        "semi-transparent (0<a<255): "@ + dec(c.2),
        "fully transparent (alpha=0): "@ + dec(c.3),
    ]
}

proof fn lemma_census_total(m: Rgba, n: nat)
    ensures
        census(m, n).1 + census(m, n).2 + census(m, n).3 <= n,
        census(m, n).0.len() == census(m, n).2,
    decreases n,
{
    if n > 0 && m.width > 0 {
        lemma_census_total(m, (n - 1) as nat);
    }
}

/// The lines that diagnose a sprite's missing pixels: its size, every partly
/// transparent pixel with its color, and how many pixels are fully opaque,
/// partly transparent and fully transparent.
pub fn inspect_sprite(img: &Sprite) -> (report: Vec<String>)
    requires
        img@.width * img@.height <= u32::MAX,
    ensures
        views(report@) == inspect_spec(img@),
{
    let w = img.width();
    let h = img.height();
    let mut report: Vec<String> = Vec::new();
    let mut head = String::new();
    push_str(&mut head, "Raw sprite: ");
    push_dec(&mut head, w as u64);
    push_char(&mut head, 'x');
    push_dec(&mut head, h as u64);
    assert(head@ =~= "Raw sprite: "@ + dec(w as nat) + seq!['x'] + dec(h as nat));
    report.push(head);
    assert(views(report@) =~= seq![head@]);
    let ghost m = img@;
    let mut fully_opaque: u32 = 0;
    let mut semi: u32 = 0;
    let mut fully_transparent: u32 = 0;
    let mut y: u32 = 0;
    assert(views(report@) =~= seq![inspect_spec(m)[0]] + census(m, 0).0);
    while y < h
        invariant
            m == img@,
            w == m.width,
            h == m.height,
            w * h <= u32::MAX,
            y <= h,
            views(report@) == seq![inspect_spec(m)[0]] + census(m, (y * w) as nat).0,
            fully_opaque == census(m, (y * w) as nat).1,
            semi == census(m, (y * w) as nat).2,
            fully_transparent == census(m, (y * w) as nat).3,
        decreases h - y,
    {
        let mut x: u32 = 0;
        assert(y * w + w == (y + 1) * w) by (nonlinear_arith);
        assert((y + 1) * w <= w * h) by (nonlinear_arith)
            requires
                y + 1 <= h,
        ;
        while x < w
            invariant
                m == img@,
                w == m.width,
                h == m.height,
                w * h <= u32::MAX,
                y < h,
                x <= w,
                (y + 1) * w <= w * h,
                views(report@) == seq![inspect_spec(m)[0]] + census(m, (y * w + x) as nat).0,
                fully_opaque == census(m, (y * w + x) as nat).1,
                semi == census(m, (y * w + x) as nat).2,
                fully_transparent == census(m, (y * w + x) as nat).3,
            decreases w - x,
        {
            proof {
                crate::sprite::lemma_byte_pixel(w as int, h as int, x as int, y as int, 0);
                lemma_census_total(m, (y * w + x) as nat);
                assert(y * w + x + 1 <= (y + 1) * w) by (nonlinear_arith)
                    requires
                        x < w,
                ;
            }
            let p = img.pixel(x, y);
            let a = p.3;
            if a == 255 {
                fully_opaque = fully_opaque + 1;
            } else if a == 0 {
                fully_transparent = fully_transparent + 1;
            } else {
                let mut line = String::new();
                push_str(&mut line, "  semi-transparent (");
                push_dec(&mut line, x as u64);
                push_char(&mut line, ',');
                push_dec(&mut line, y as u64);
                push_str(&mut line, ") rgba=(");
                push_dec(&mut line, p.0 as u64);
                push_char(&mut line, ',');
                push_dec(&mut line, p.1 as u64);
                push_char(&mut line, ',');
                push_dec(&mut line, p.2 as u64);
                push_char(&mut line, ',');
                push_dec(&mut line, a as u64);
                push_char(&mut line, ')');
                assert(line@ =~= semi_line(x as int, y as int, p));
                let ghost before = report@;
                report.push(line);
                assert(views(report@) =~= views(before).push(semi_line(x as int, y as int, p)));
                semi = semi + 1;
            }
            x = x + 1;
        }
        y = y + 1;
    }
    let ghost c = census(m, (m.width * m.height) as nat);
    assert(h * w == w * h) by (nonlinear_arith);
    let mut l1 = String::new();
    push_str(&mut l1, "fully opaque (alpha=255): ");
    push_dec(&mut l1, fully_opaque as u64);
    let mut l2 = String::new();
    push_str(&mut l2, "semi-transparent (0<a<255): ");
    push_dec(&mut l2, semi as u64);
    let mut l3 = String::new();
    push_str(&mut l3, "fully transparent (alpha=0): ");
    push_dec(&mut l3, fully_transparent as u64);
    let ghost before = report@;
    report.push(l1);
    report.push(l2);
    report.push(l3);
    assert(views(report@) =~= views(before) + seq![l1@, l2@, l3@]);
    assert(views(report@) =~= inspect_spec(m));
    report
}

} // verus!
