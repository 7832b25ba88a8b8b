//! Pixels: conversion, blending and packing.

use egui::Color32;
use vstd::prelude::*;

verus! {

/// Width of a framebuffer.
pub const FB_WIDTH: usize = 960;

/// Height of a framebuffer.
pub const FB_HEIGHT: usize = 544;

/// Bytes per row of a framebuffer, at four per pixel.
pub const FB_STRIDE: usize = 3840;

/// Bytes of a framebuffer.
pub const FB_SIZE: usize = 2_088_960;

/// Bytes per row of a decoded picture, at two per pixel.
pub const DECODE_PITCH: usize = 1920;

/// Bytes of a decoded picture.
pub const DECODE_SIZE: usize = 1_044_480;

/// Pixels of a picture.
pub const PIXELS: usize = 522_240;

/// A part of a decoded pixel, widened to a byte and rounded to the nearest.
pub open spec fn widened(part: int, largest: int) -> int {
    (part * 255 + largest / 2) / largest
}

/// The four bytes (red, green, blue, opaque) of a decoded pixel. Red is in its lowest five bits,
/// green in the six after those, blue in the highest five.
pub open spec fn rgba_of(low: u8, high: u8) -> Seq<u8> {
    let pixel = low + high * 256;
    seq![
        widened(pixel % 32, 31) as u8,
        widened(pixel / 32 % 64, 63) as u8,
        widened(pixel / 2048, 31) as u8,
        255u8,
    ]
}

/// One byte of a converted picture.
pub open spec fn converted_byte(decoded: Seq<u8>, k: int) -> u8 {
    rgba_of(decoded[k / 4 * 2], decoded[k / 4 * 2 + 1])[k % 4]
}

/// Converts a decoded picture to a framebuffer's format, every pixel opaque.
pub fn convert_bgr565_to_rgba8888(decoded: &[u8], framebuffer: &mut [u8])
    requires
        decoded@.len() >= DECODE_SIZE,
        old(framebuffer)@.len() >= FB_SIZE,
    ensures
        final(framebuffer)@.len() == old(framebuffer)@.len(),
        forall|k: int|
            0 <= k < FB_SIZE ==> #[trigger] final(framebuffer)@[k] == converted_byte(decoded@, k),
        forall|k: int|
            FB_SIZE <= k < old(framebuffer)@.len() ==> #[trigger] final(framebuffer)@[k] == old(
                framebuffer,
            )@[k],
{
    let mut i: usize = 0;
    while i < PIXELS
        invariant
            i <= PIXELS,
            decoded@.len() >= DECODE_SIZE,
            framebuffer@.len() == old(framebuffer)@.len(),
            framebuffer@.len() >= FB_SIZE,
            forall|k: int|
                0 <= k < 4 * i ==> #[trigger] framebuffer@[k] == converted_byte(decoded@, k),
            forall|k: int|
                4 * i <= k < framebuffer@.len() ==> #[trigger] framebuffer@[k] == old(
                    framebuffer,
                )@[k],
        decreases PIXELS - i,
    {
        let source: usize = i * 2;
        let target: usize = i * 4;
        let pixel: u32 = decoded[source] as u32 + decoded[source + 1] as u32 * 256;
        let r5: u32 = pixel % 32;
        let g6: u32 = pixel / 32 % 64;
        let b5: u32 = pixel / 2048;
        framebuffer[target] = ((r5 * 255 + 15) / 31) as u8;
        framebuffer[target + 1] = ((g6 * 255 + 31) / 63) as u8;
        framebuffer[target + 2] = ((b5 * 255 + 15) / 31) as u8;
        framebuffer[target + 3] = 255;
        i = i + 1;
    }
}

/// The background where no video is shown: opaque dark blue.
pub open spec fn background() -> Seq<u8> {
    seq![0u8, 24u8, 48u8, 255u8]
}

/// Fills a framebuffer with the background; bytes that make no whole pixel at its end are left.
pub fn fill_background(framebuffer: &mut [u8])
    ensures
        final(framebuffer)@.len() == old(framebuffer)@.len(),
        forall|k: int|
            0 <= k < final(framebuffer)@.len() ==> #[trigger] final(framebuffer)@[k] == if k / 4 * 4
                + 4 <= final(framebuffer)@.len() {
                background()[k % 4]
            } else {
                old(framebuffer)@[k]
            },
{
    let whole: usize = framebuffer.len() / 4;
    let mut i: usize = 0;
    while i < whole
        invariant
            i <= whole,
            whole == old(framebuffer)@.len() / 4,
            framebuffer@.len() == old(framebuffer)@.len(),
            framebuffer.len() == old(framebuffer)@.len(),
            forall|k: int| 0 <= k < 4 * i ==> #[trigger] framebuffer@[k] == background()[k % 4],
            forall|k: int|
                4 * i <= k < framebuffer@.len() ==> #[trigger] framebuffer@[k] == old(
                    framebuffer,
                )@[k],
        decreases whole - i,
    {
        let at: usize = i * 4;
        framebuffer[at] = 0;
        framebuffer[at + 1] = 24;
        framebuffer[at + 2] = 48;
        framebuffer[at + 3] = 255;
        i = i + 1;
    }
}

/// The opacity of a texel under a vertex's colour.
pub open spec fn source_alpha(texel_alpha: u8, color: Seq<u8>) -> int {
    texel_alpha * color[3] / 255
}

/// A part of a vertex's colour under a texel.
pub open spec fn source_part(texel_alpha: u8, part: u8) -> int {
    part * texel_alpha / 255
}

/// A part of a pixel after something was drawn over it.
pub open spec fn blended_part(source: int, alpha: int, under: u8) -> int {
    (source * alpha + under * (255 - alpha)) / 255
}

/// A pixel after a texel of a vertex's colour was drawn over it. What is fully transparent
/// leaves it as it was, and a pixel that was fully transparent takes the colour as it is.
pub open spec fn blended(under: Seq<u8>, texel_alpha: u8, color: Seq<u8>) -> Seq<u8> {
    let alpha = source_alpha(texel_alpha, color);
    let r = source_part(texel_alpha, color[0]);
    let g = source_part(texel_alpha, color[1]);
    let b = source_part(texel_alpha, color[2]);
    if alpha == 0 {
        under
    } else if under[3] == 0 {
        seq![r as u8, g as u8, b as u8, alpha as u8]
    } else {
        let opacity = alpha + under[3] * (255 - alpha) / 255;
        seq![
            blended_part(r, alpha, under[0]) as u8,
            blended_part(g, alpha, under[1]) as u8,
            blended_part(b, alpha, under[2]) as u8,
            (if opacity > 255 {
                255
            } else {
                opacity
            }) as u8,
        ]
    }
}

fn scaled(a: u8, b: u8) -> (product: u32)
    ensures
        product == a * b / 255,
        product <= 255,
{
    proof {
        assert(a * b <= 255 * 255) by (nonlinear_arith)
            requires
                a <= 255,
                b <= 255,
        ;
    }
    (a as u32 * b as u32) / 255
}

fn blend_part(source: u32, alpha: u32, under: u8) -> (part: u8)
    requires
        source <= 255,
        alpha <= 255,
    ensures
        part == blended_part(source as int, alpha as int, under),
{
    proof {
        assert(source * alpha + under * (255 - alpha) <= 255 * 255) by (nonlinear_arith)
            requires
                source <= 255,
                alpha <= 255,
                under <= 255,
        ;
        assert(0 <= source * alpha <= 255 * 255) by (nonlinear_arith)
            requires
                source <= 255,
                alpha <= 255,
        ;
        assert(0 <= under * (255 - alpha) <= 255 * 255) by (nonlinear_arith)
            requires
                alpha <= 255,
                under <= 255,
        ;
    }
    ((source * alpha + under as u32 * (255 - alpha)) / 255) as u8
}

/// Draws a texel of a vertex's colour over a pixel.
pub fn blend_pixel(under: [u8; 4], texel_alpha: u8, color: [u8; 4]) -> (pixel: [u8; 4])
    ensures
        pixel@ == blended(under@, texel_alpha, color@),
{
    let alpha: u32 = scaled(texel_alpha, color[3]);
    if alpha == 0 {
        assert(under@ =~= blended(under@, texel_alpha, color@));
        return under;
    }
    let r: u32 = scaled(color[0], texel_alpha);
    let g: u32 = scaled(color[1], texel_alpha);
    let b: u32 = scaled(color[2], texel_alpha);
    if under[3] == 0 {
        let pixel: [u8; 4] = [r as u8, g as u8, b as u8, alpha as u8];
        assert(pixel@ =~= blended(under@, texel_alpha, color@));
        return pixel;
    }
    let kept: u8 = (255 - alpha) as u8;
    let opacity: u32 = alpha + scaled(under[3], kept);
    let pixel: [u8; 4] = [
        blend_part(r, alpha, under[0]),
        blend_part(g, alpha, under[1]),
        blend_part(b, alpha, under[2]),
        (if opacity > 255 {
            255
        } else {
            opacity
        }) as u8,
    ];
    assert(pixel@ =~= blended(under@, texel_alpha, color@));
    pixel
}

/// Whether a colour is what `Color32::to_srgba_unmultiplied` made of a premultiplied one.
pub uninterp spec fn unmultiplies(pixel: Seq<u8>, straight: Seq<u8>) -> bool;

/// `Color32::to_srgba_unmultiplied` on a premultiplied colour. The opacity is kept, a colour
/// that is opaque or fully transparent is kept whole, and a part that is zero stays zero; how the
/// other parts are rounded depends on the machine's floating point and is not promised.
#[verifier::external_body]
fn unmultiply(pixel: [u8; 4]) -> (straight: [u8; 4])
    ensures
        unmultiplies(pixel@, straight@),
        straight@[3] == pixel@[3],
        pixel@[3] == 255 || pixel@[3] == 0 ==> straight@ == pixel@,
        forall|part: int| 0 <= part < 3 && pixel@[part] == 0 ==> #[trigger] straight@[part] == 0,
{
    Color32::from_rgba_premultiplied(pixel[0], pixel[1], pixel[2], pixel[3])
        .to_srgba_unmultiplied()
}

/// The bytes of some pixels, one after the other.
pub open spec fn bytes_of_pixels(pixels: Seq<[u8; 4]>) -> Seq<u8> {
    Seq::new(pixels.len() * 4, |k: int| pixels[k / 4]@[k % 4])
}

/// The bytes of some pixels, one after the other.
pub fn flatten_pixels(pixels: &Vec<[u8; 4]>) -> (bytes: Vec<u8>)
    ensures
        bytes@ == bytes_of_pixels(pixels@),
{
    let mut bytes: Vec<u8> = Vec::new();
    let mut i: usize = 0;
    while i < pixels.len()
        invariant
            i <= pixels@.len(),
            bytes@.len() == 4 * i,
            forall|k: int| 0 <= k < 4 * i ==> #[trigger] bytes@[k] == pixels@[k / 4]@[k % 4],
        decreases pixels@.len() - i,
    {
        let pixel = pixels[i];
        bytes.push(pixel[0]);
        bytes.push(pixel[1]);
        bytes.push(pixel[2]);
        bytes.push(pixel[3]);
        i = i + 1;
    }
    assert(bytes@ =~= bytes_of_pixels(pixels@));
    bytes
}

/// The bytes of an image of premultiplied pixels, without the multiplication: four per pixel,
/// the opacity as it was. Pixels that are opaque or fully transparent stay as they are.
pub fn image_to_rgba(image: &Vec<[u8; 4]>) -> (bytes: Vec<u8>)
    ensures
        bytes@.len() == image@.len() * 4,
        forall|i: int|
            0 <= i < image@.len() ==> unmultiplies(
                (#[trigger] image@[i])@,
                bytes@.subrange(4 * i, 4 * i + 4),
            ),
        forall|i: int|
            0 <= i < image@.len() ==> bytes@[4 * i + 3] == (#[trigger] image@[i])@[3],
        forall|i: int|
            0 <= i < image@.len() && ((#[trigger] image@[i])@[3] == 255 || image@[i]@[3] == 0)
                ==> bytes@.subrange(4 * i, 4 * i + 4) == image@[i]@,
        forall|i: int, part: int|
            0 <= i < image@.len() && 0 <= part < 3 && #[trigger] image@[i]@[part] == 0
                ==> bytes@[4 * i + part] == 0,
{
    let mut straight: Vec<[u8; 4]> = Vec::new();
    let mut i: usize = 0;
    while i < image.len()
        invariant
            i <= image@.len(),
            straight@.len() == i,
            forall|k: int|
                0 <= k < i ==> unmultiplies(image@[k]@, (#[trigger] straight@[k])@),
            forall|k: int| 0 <= k < i ==> (#[trigger] straight@[k])@[3] == image@[k]@[3],
            forall|k: int|
                0 <= k < i && (image@[k]@[3] == 255 || image@[k]@[3] == 0)
                    ==> (#[trigger] straight@[k])@ == image@[k]@,
            forall|k: int, part: int|
                0 <= k < i && 0 <= part < 3 && image@[k]@[part] == 0
                    ==> #[trigger] straight@[k]@[part] == 0,
        decreases image@.len() - i,
    {
        straight.push(unmultiply(image[i]));
        i = i + 1;
    }
    let bytes = flatten_pixels(&straight);
    proof {
        assert forall|i: int| 0 <= i < image@.len() implies bytes@[4 * i + 3] == (
        #[trigger] image@[i])@[3] by {
            assert((4 * i + 3) / 4 == i && (4 * i + 3) % 4 == 3);
            assert(straight@[i]@[3] == image@[i]@[3]);
        }
        assert forall|i: int| 0 <= i < straight@.len() implies bytes@.subrange(4 * i, 4 * i + 4)
            == (#[trigger] straight@[i])@ by {
            assert forall|part: int| 0 <= part < 4 implies #[trigger] bytes@.subrange(
                4 * i,
                4 * i + 4,
            )[part] == straight@[i]@[part] by {
                assert((4 * i + part) / 4 == i && (4 * i + part) % 4 == part);
            }
            assert(bytes@.subrange(4 * i, 4 * i + 4) =~= straight@[i]@);
        }
        assert forall|i: int| 0 <= i < image@.len() implies unmultiplies(
            (#[trigger] image@[i])@,
            bytes@.subrange(4 * i, 4 * i + 4),
        ) by {
            assert(bytes@.subrange(4 * i, 4 * i + 4) == straight@[i]@);
        }
        assert forall|i: int|
            0 <= i < image@.len() && ((#[trigger] image@[i])@[3] == 255 || image@[i]@[3] == 0)
            implies bytes@.subrange(4 * i, 4 * i + 4) == image@[i]@ by {
            assert(straight@[i]@ == image@[i]@);
        }
        assert forall|i: int, part: int|
            0 <= i < image@.len() && 0 <= part < 3 && #[trigger] image@[i]@[part] == 0 implies
            bytes@[4 * i + part] == 0 by {
            assert((4 * i + part) / 4 == i && (4 * i + part) % 4 == part);
            assert(straight@[i]@[part] == 0);
        }
    }
    bytes
}

/// A colour in one word, red in the lowest byte.
pub open spec fn packed(color: Seq<u8>) -> int {
    color[0] + color[1] * 0x100 + color[2] * 0x1_0000 + color[3] * 0x100_0000
}

/// A colour in one word, red in the lowest byte.
pub fn pack_color(color: [u8; 4]) -> (word: u32)
    ensures
        word == packed(color@),
{
    color[0] as u32 + color[1] as u32 * 0x100 + color[2] as u32 * 0x1_0000 + color[3] as u32
        * 0x100_0000
}

/// The colour of a vertex in one word, without the multiplication.
pub fn vertex_color(color: [u8; 4]) -> (word: u32)
    ensures
        exists|straight: Seq<u8>| #[trigger]
            unmultiplies(color@, straight) && word == packed(straight),
        word / 0x100_0000 == color@[3],
        color@[3] == 255 || color@[3] == 0 ==> word == packed(color@),
        color@[0] == 0 && color@[1] == 0 && color@[2] == 0 ==> word == color@[3] * 0x100_0000,
{
    let straight = unmultiply(color);
    assert(unmultiplies(color@, straight@));
    pack_color(straight)
}

/// A size rounded up to whole memory pages.
pub fn page_aligned(size: u32) -> (aligned: u32)
    requires
        size <= 0xffff_f000,
    ensures
        aligned % 4096 == 0,
        size <= aligned < size + 4096,
{
    (size + 4095) / 4096 * 4096
}

/// An opaque texel of an opaque colour covers what was under it.
pub proof fn opaque_covers_what_was_under(under: Seq<u8>, color: Seq<u8>)
    requires
        under.len() == 4,
        color.len() == 4,
        color[3] == 255,
    ensures
        blended(under, 255, color) == color,
{
    assert(source_part(255, color[0]) == color[0]);
    assert(source_part(255, color[1]) == color[1]);
    assert(source_part(255, color[2]) == color[2]);
    assert(blended_part(color[0] as int, 255, under[0]) == color[0]);
    assert(blended_part(color[1] as int, 255, under[1]) == color[1]);
    assert(blended_part(color[2] as int, 255, under[2]) == color[2]);
    assert(blended(under, 255, color) =~= color);
}

proof fn lemma_scaled(a: int, b: int)
    requires
        0 <= a <= 255,
        0 <= b <= 255,
    ensures
        0 <= a * b / 255 <= 255,
        a * b / 255 <= a,
        a * b / 255 <= b,
{
    assert(0 <= a * b <= 255 * a) by (nonlinear_arith)
        requires
            0 <= a <= 255,
            0 <= b <= 255,
    ;
    assert(a * b <= 255 * b) by (nonlinear_arith)
        requires
            0 <= a <= 255,
            0 <= b <= 255,
    ;
}

proof fn lemma_weighted(source: int, alpha: int, under: int)
    requires
        0 <= source <= 255,
        0 <= alpha <= 255,
        0 <= under <= 255,
    ensures
        ({
            let mean = (source * alpha + under * (255 - alpha)) / 255;
            &&& 0 <= mean <= 255
            &&& source <= under ==> source <= mean <= under
            &&& under <= source ==> under <= mean <= source
        }),
{
    let sum = source * alpha + under * (255 - alpha);
    assert(0 <= sum <= 255 * 255) by (nonlinear_arith)
        requires
            0 <= source <= 255,
            0 <= alpha <= 255,
            0 <= under <= 255,
            sum == source * alpha + under * (255 - alpha),
    ;
    if source <= under {
        assert(255 * source <= sum <= 255 * under) by (nonlinear_arith)
            requires
                0 <= source <= under,
                0 <= alpha <= 255,
                sum == source * alpha + under * (255 - alpha),
        ;
    }
    if under <= source {
        assert(255 * under <= sum <= 255 * source) by (nonlinear_arith)
            requires
                0 <= under <= source,
                0 <= alpha <= 255,
                sum == source * alpha + under * (255 - alpha),
        ;
    }
}

/// Each colour part of a pixel that something was drawn over comes of the same part of the colour
/// and of what was under it, and of no other: over a pixel that is not fully transparent it lies
/// between the two, the colour's part taken as far as the texel is opaque.
pub proof fn each_part_is_blended_with_its_own(
    under: Seq<u8>,
    texel_alpha: u8,
    color: Seq<u8>,
    part: int,
)
    requires
        under.len() == 4,
        color.len() == 4,
        0 <= part < 3,
        under[3] != 0,
    ensures
        ({
            let source = color[part] * texel_alpha / 255;
            let after = blended(under, texel_alpha, color)[part];
            &&& source <= under[part] ==> source <= after <= under[part]
            &&& under[part] <= source ==> under[part] <= after <= source
        }),
{
    let alpha = source_alpha(texel_alpha, color);
    lemma_scaled(texel_alpha as int, color[3] as int);
    lemma_scaled(color[part] as int, texel_alpha as int);
    lemma_weighted(source_part(texel_alpha, color[part]), alpha, under[part] as int);
    assert(part == 0 || part == 1 || part == 2);
}

/// What is drawn counts by its opacity, which is the texel's share of the colour's, and what was
/// under it by the rest: the nearest whole part from below. An opacity of zero leaves the pixel
/// as it was, and a pixel that was fully transparent takes what is drawn.
pub proof fn parts_are_weighed_by_the_opacity(
    under: Seq<u8>,
    texel_alpha: u8,
    color: Seq<u8>,
    part: int,
)
    requires
        under.len() == 4,
        color.len() == 4,
        0 <= part < 3,
    ensures
        ({
            let alpha = texel_alpha * color[3] / 255;
            let source = color[part] * texel_alpha / 255;
            let after = blended(under, texel_alpha, color);
            let kept = under[3] * (255 - alpha) / 255;
            &&& after.len() == 4
            &&& alpha == 0 ==> after == under
            &&& alpha > 0 && under[3] == 0 ==> after[part] == source && after[3] == alpha
            &&& alpha > 0 && under[3] > 0 ==> {
                let sum = source * alpha + under[part] * (255 - alpha);
                &&& after[part] * 255 <= sum < after[part] * 255 + 255
                &&& after[3] == alpha + kept
            }
            &&& after[3] >= under[3] && after[3] >= alpha
        }),
{
    let alpha = source_alpha(texel_alpha, color);
    lemma_scaled(texel_alpha as int, color[3] as int);
    lemma_scaled(color[part] as int, texel_alpha as int);
    lemma_weighted(source_part(texel_alpha, color[part]), alpha, under[part] as int);
    lemma_scaled(under[3] as int, 255 - alpha);
    let covered = under[3] * alpha;
    let rest = under[3] * (255 - alpha);
    assert(rest == 255 * under[3] - covered && covered <= 255 * alpha && 0 <= covered) by (
    nonlinear_arith)
        requires
            covered == under[3] * alpha,
            rest == under[3] * (255 - alpha),
            0 <= alpha <= 255,
            under[3] <= 255,
    ;
    assert(rest <= 255 * (255 - alpha)) by (nonlinear_arith)
        requires
            rest == under[3] * (255 - alpha),
            0 <= alpha <= 255,
            under[3] <= 255,
    ;
    assert(part == 0 || part == 1 || part == 2);
}

/// A decoded pixel of which red, green and blue are known comes out with each of them on the
/// scale of a byte, to the nearest, and opaque.
pub proof fn a_decoded_pixel_keeps_its_colour(low: u8, high: u8, red: int, green: int, blue: int)
    requires
        0 <= red < 32,
        0 <= green < 64,
        0 <= blue < 32,
        low + 0x100 * high == red + 32 * green + 2048 * blue,
    ensures
        ({
            let pixel = rgba_of(low, high);
            &&& pixel.len() == 4
            &&& -31 <= 2 * (31 * pixel[0] - 255 * red) <= 31
            &&& -63 <= 2 * (63 * pixel[1] - 255 * green) <= 63
            &&& -31 <= 2 * (31 * pixel[2] - 255 * blue) <= 31
            &&& pixel[3] == 255
        }),
{
    let word = low + high * 256;
    assert(word % 32 == red);
    assert(word / 32 % 64 == green);
    assert(word / 2048 == blue);
    let r = (red * 255 + 15) / 31;
    let g = (green * 255 + 31) / 63;
    let b = (blue * 255 + 15) / 31;
    assert(0 <= r <= 255 && 0 <= g <= 255 && 0 <= b <= 255);
}

/// Pixel `i` of a converted picture comes of the two bytes of pixel `i` of the decoded one.
pub proof fn each_pixel_is_converted_by_itself(decoded: Seq<u8>, i: int, part: int)
    requires
        0 <= i,
        0 <= part < 4,
    ensures
        converted_byte(decoded, 4 * i + part) == rgba_of(decoded[2 * i], decoded[2 * i + 1])[part],
{
    assert((4 * i + part) / 4 == i && (4 * i + part) % 4 == part);
}

/// The four bytes of a colour can be read out of its word, red from the lowest place, then green,
/// blue and the opacity.
pub proof fn a_packed_colour_reads_back(color: Seq<u8>)
    requires
        color.len() == 4,
    ensures
        packed(color) % 0x100 == color[0],
        packed(color) / 0x100 % 0x100 == color[1],
        packed(color) / 0x1_0000 % 0x100 == color[2],
        packed(color) / 0x100_0000 == color[3],
        0 <= packed(color) < 0x1_0000_0000,
{
}

/// Pixels are laid out one after the other, four bytes each.
pub proof fn pixels_are_laid_out_in_order(pixels: Seq<[u8; 4]>, i: int, part: int)
    requires
        0 <= i < pixels.len(),
        0 <= part < 4,
    ensures
        bytes_of_pixels(pixels).len() == 4 * pixels.len(),
        bytes_of_pixels(pixels)[4 * i + part] == pixels[i]@[part],
{
    assert((4 * i + part) / 4 == i && (4 * i + part) % 4 == part);
}

/// The background is the same everywhere: an opaque colour without red, with twice as much blue as
/// green.
pub proof fn the_background_is_opaque_blue()
    ensures
        background().len() == 4,
        background()[0] == 0,
        background()[1] == 24,
        background()[2] == 2 * background()[1],
        background()[3] == 255,
{
}

} // verus!
