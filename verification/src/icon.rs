//! The tray icon: a filled circle with a capital T on it, as RGBA pixels.
//!
//! All lengths are counted in half pixels from the centre of the canvas, which
//! lies between four pixels, so that the geometry stays in whole numbers.
use vstd::prelude::*;

verus! {

/// Width and height of the icon in pixels.
pub const SIZE: u32 = 32;

/// The squared distance, in half pixels, of the centre of a pixel from the
/// centre of the canvas.
pub open spec fn distance2(x: int, y: int) -> int {
    (2 * x - 31) * (2 * x - 31) + (2 * y - 31) * (2 * y - 31)
}

/// On the soft edge, the opacity falls from 255 at a distance of 12 pixels to 0
/// at 13: an opacity of `a` is not too much at the distance whose square, in
/// half pixels, is `d2`, if `a <= 255 * (13 - sqrt(d2) / 2)`.
pub open spec fn not_too_opaque(d2: int, a: int) -> bool {
    65025 * d2 <= (6630 - 2 * a) * (6630 - 2 * a)
}

/// The greatest opacity up to `a` that is not too much on the soft edge.
pub open spec fn edge_alpha(d2: int, a: int) -> int
    decreases a,
{
    if a <= 0 {
        0
    } else if not_too_opaque(d2, a) {
        a
    } else {
        edge_alpha(d2, a - 1)
    }
}

/// The opacity of a pixel: full up to a distance of 12 pixels, none beyond 13.
pub open spec fn alpha(x: int, y: int) -> int {
    let d2 = distance2(x, y);
    if d2 <= 24 * 24 {
        255
    } else if d2 <= 26 * 26 {
        edge_alpha(d2, 255)
    } else {
        0
    }
}

/// The pixel belongs to the letter: to its stem or to its bar.
pub open spec fn in_letter(x: int, y: int) -> bool {
    ||| -3 <= 2 * x - 31 <= 3 && 11 <= y <= 23
    ||| -11 <= 2 * x - 31 <= 11 && 8 <= y <= 11
}

/// One of the four bytes of a pixel: red, green, blue and opacity.
pub open spec fn pixel_byte(rgb: Seq<u8>, glyph: Seq<u8>, x: int, y: int, c: int) -> u8 {
    if c == 3 {
        alpha(x, y) as u8
    } else if alpha(x, y) > 0 && in_letter(x, y) {
        glyph[c]
    } else {
        rgb[c]
    }
}

/// The pixels of the icon, row by row from the top.
pub open spec fn icon_pixels(rgb: Seq<u8>, glyph: Seq<u8>) -> Seq<u8> {
    Seq::new(4096, |i: int| pixel_byte(rgb, glyph, (i / 4) % 32, (i / 4) / 32, i % 4))
}

fn edge_opacity(d2: i32) -> (a: u8)
    requires
        0 <= d2 <= 676,
    ensures
        a == edge_alpha(d2 as int, 255),
{
    let mut a: i32 = 255;
    while a > 0
        invariant
            0 <= a <= 255,
            0 <= d2 <= 676,
            edge_alpha(d2 as int, 255) == edge_alpha(d2 as int, a as int),
        decreases a,
    {
        let room: i32 = 6630 - 2 * a;
        assert(0 <= room * room <= 6630 * 6630) by (nonlinear_arith)
            requires
                0 <= room <= 6630,
        ;
        if 65025 * d2 <= room * room {
            return a as u8;
        }
        a = a - 1;
    }
    0
}

fn opacity(x: u32, y: u32) -> (a: u8)
    requires
        x < 32,
        y < 32,
    ensures
        a == alpha(x as int, y as int),
        0 <= alpha(x as int, y as int) <= 255,
{
    let u: i32 = 2 * (x as i32) - 31;
    let v: i32 = 2 * (y as i32) - 31;
    assert(0 <= u * u <= 961) by (nonlinear_arith)
        requires
            -31 <= u <= 31,
    ;
    assert(0 <= v * v <= 961) by (nonlinear_arith)
        requires
            -31 <= v <= 31,
    ;
    let d2: i32 = u * u + v * v;
    assert(d2 == distance2(x as int, y as int));
    if d2 <= 576 {
        255
    } else if d2 <= 676 {
        edge_opacity(d2)
    } else {
        0
    }
}

/// A filled circle in the colour `rgb` on a transparent background, with a
/// capital T in the colour `glyph` on it: RGBA bytes of a square of [`SIZE`]
/// pixels.
pub fn solid_icon(rgb: [u8; 3], glyph: [u8; 3]) -> (rgba: Vec<u8>)
    ensures
        rgba@ == icon_pixels(rgb@, glyph@),
{
    let mut rgba: Vec<u8> = Vec::with_capacity(4096);
    let ghost want = icon_pixels(rgb@, glyph@);
    for y in 0..SIZE
        invariant
            want == icon_pixels(rgb@, glyph@),
            rgba@ == want.take(128 * y),
    {
        for x in 0..SIZE
            invariant
                0 <= y < 32,
                want == icon_pixels(rgb@, glyph@),
                rgba@ == want.take(128 * y + 4 * x),
        {
            let a: u8 = opacity(x, y);
            let u: i32 = 2 * (x as i32) - 31;
            let in_stem: bool = -3 <= u && u <= 3 && 11 <= y && y <= 23;
            let in_bar: bool = -11 <= u && u <= 11 && 8 <= y && y <= 11;
            let color: [u8; 3] = if a > 0 && (in_stem || in_bar) {
                glyph
            } else {
                rgb
            };
            let ghost k = 128 * y + 4 * x;
            rgba.push(color[0]);
            rgba.push(color[1]);
            rgba.push(color[2]);
            rgba.push(a);
            proof {
                assert(k / 4 == 32 * y + x);
                assert((32 * y + x) % 32 == x);
                assert((32 * y + x) / 32 == y as int);
                assert(want.take(k + 4) == want.take(k).push(want[k]).push(want[k + 1]).push(
                    want[k + 2],
                ).push(want[k + 3]));
            }
        }
    }
    assert(want.take(4096) == want);
    rgba
}

/// The colour of the circle.
pub open spec fn circle_color(reachable: bool, active: bool) -> Seq<u8> {
    if !reachable {
        seq![229u8, 115u8, 115u8]
    } else if active {
        seq![76u8, 175u8, 80u8]
    } else {
        seq![154u8, 159u8, 168u8]
    }
}

/// The colour of the letter: dark on the light grey of standby, where white
/// would hardly show.
pub open spec fn letter_color(reachable: bool, active: bool) -> Seq<u8> {
    if reachable && !active {
        seq![60u8, 63u8, 70u8]
    } else {
        seq![255u8, 255u8, 255u8]
    }
}

/// The icon for a state of the daemon: red while it cannot be reached, green
/// while it is active, grey on standby.
pub fn icon_for(reachable: bool, active: bool) -> (rgba: Vec<u8>)
    ensures
        rgba@ == icon_pixels(circle_color(reachable, active), letter_color(reachable, active)),
        rgba@.len() == SIZE * SIZE * 4,
{
    let white: [u8; 3] = [255, 255, 255];
    let dark: [u8; 3] = [60, 63, 70];
    let rgb: [u8; 3] = if !reachable {
        [229, 115, 115]
    } else if active {
        [76, 175, 80]
    } else {
        [154, 159, 168]
    };
    let glyph: [u8; 3] = if reachable && !active {
        dark
    } else {
        white
    };
    assert(rgb@ == circle_color(reachable, active));
    assert(glyph@ == letter_color(reachable, active));
    solid_icon(rgb, glyph)
}

/// The letter is never drawn where the circle is not visible.
pub proof fn law_letter_stays_in_circle(rgb: Seq<u8>, glyph: Seq<u8>, i: int)
    requires
        0 <= i < 1024,
        icon_pixels(rgb, glyph)[4 * i + 3] == 0,
    ensures
        forall|c: int| 0 <= c < 3 ==> #[trigger] icon_pixels(rgb, glyph)[4 * i + c] == rgb[c],
{
    let x = i % 32;
    let y = i / 32;
    lemma_alpha_range(x, y);
    assert((4 * i + 3) / 4 == i && (4 * i + 3) % 4 == 3);
    assert(alpha(x, y) == 0);
    assert forall|c: int| 0 <= c < 3 implies #[trigger] icon_pixels(rgb, glyph)[4 * i + c]
        == rgb[c] by {
        assert((4 * i + c) / 4 == i && (4 * i + c) % 4 == c);
    }
}

proof fn lemma_edge_range(d2: int, a: int)
    requires
        0 <= a,
    ensures
        0 <= edge_alpha(d2, a) <= a,
    decreases a,
{
    if a > 0 {
        lemma_edge_range(d2, a - 1);
    }
}

proof fn lemma_alpha_range(x: int, y: int)
    ensures
        0 <= alpha(x, y) <= 255,
{
    lemma_edge_range(distance2(x, y), 255);
}

/// The circle leaves a transparent margin of three pixels on every side.
pub proof fn law_margin_is_transparent(x: int, y: int)
    requires
        x < 3 || x > 28 || y < 3 || y > 28,
    ensures
        alpha(x, y) == 0,
{
    let u = 2 * x - 31;
    let v = 2 * y - 31;
    assert(u * u >= 0) by (nonlinear_arith);
    assert(v * v >= 0) by (nonlinear_arith);
    if x < 3 || x > 28 {
        assert(u * u >= 27 * 27) by (nonlinear_arith)
            requires
                u <= -27 || u >= 27,
        ;
    } else {
        assert(v * v >= 27 * 27) by (nonlinear_arith)
            requires
                v <= -27 || v >= 27,
        ;
    }
}

/// Circle and letter have the same vertical centre line: the right half of the
/// icon mirrors the left.
pub proof fn law_icon_is_symmetric(rgb: Seq<u8>, glyph: Seq<u8>, x: int, y: int, c: int)
    ensures
        pixel_byte(rgb, glyph, x, y, c) == pixel_byte(rgb, glyph, 31 - x, y, c),
{
    let u = 2 * x - 31;
    assert(2 * (31 - x) - 31 == -u);
    assert((-u) * (-u) == u * u) by (nonlinear_arith);
}

/// Each pixel has the colour of the letter where it belongs to the visible
/// letter, and that of the circle elsewhere, whatever the two colours are.
pub proof fn law_pixels_have_the_two_colours(rgb: Seq<u8>, glyph: Seq<u8>, x: int, y: int, c: int)
    requires
        0 <= x < 32,
        0 <= y < 32,
        0 <= c < 3,
    ensures
        ({
            let px = icon_pixels(rgb, glyph);
            let k = 4 * (32 * y + x);
            &&& px.len() == 4096
            &&& px[k + 3] == alpha(x, y)
            &&& px[k + 3] > 0 && in_letter(x, y) ==> px[k + c] == glyph[c]
            &&& !(px[k + 3] > 0 && in_letter(x, y)) ==> px[k + c] == rgb[c]
        }),
{
    let k = 4 * (32 * y + x);
    lemma_alpha_range(x, y);
    assert((k + c) / 4 == 32 * y + x && (k + c) % 4 == c);
    assert((k + 3) / 4 == 32 * y + x && (k + 3) % 4 == 3);
    assert((32 * y + x) % 32 == x && (32 * y + x) / 32 == y);
}

/// The letter is a stem of four pixels, from the row 11 to the row 23, below a bar
/// of twelve, from the row 8 to the row 11, both in the middle.
pub proof fn law_letter(x: int, y: int)
    ensures
        in_letter(x, y) <==> (14 <= x <= 17 && 11 <= y <= 23) || (10 <= x <= 21 && 8 <= y <= 11),
{
}

/// The circle is opaque up to a distance of 12 pixels from the centre, and
/// nothing is seen beyond 13. Between the two, the opacity is the greatest whole
/// number that is not above the straight line from 255 down to 0.
pub proof fn law_opacity(x: int, y: int)
    ensures
        ({
            let u = 2 * x - 31;
            let v = 2 * y - 31;
            let d2 = u * u + v * v;
            let a = alpha(x, y);
            &&& 0 <= a <= 255
            &&& d2 <= 576 ==> a == 255
            &&& d2 > 676 ==> a == 0
            &&& 576 < d2 <= 676 ==> {
                &&& a > 0 ==> 65025 * d2 <= (6630 - 2 * a) * (6630 - 2 * a)
                &&& a < 255 ==> 65025 * d2 > (6628 - 2 * a) * (6628 - 2 * a)
            }
        }),
{
    lemma_alpha_range(x, y);
    lemma_edge_greatest(distance2(x, y), 255);
}

proof fn lemma_edge_greatest(d2: int, a: int)
    requires
        0 <= a,
    ensures
        ({
            let e = edge_alpha(d2, a);
            &&& e > 0 ==> 65025 * d2 <= (6630 - 2 * e) * (6630 - 2 * e)
            &&& e < a ==> 65025 * d2 > (6630 - 2 * (e + 1)) * (6630 - 2 * (e + 1))
        }),
    decreases a,
{
    if a > 0 && !not_too_opaque(d2, a) {
        lemma_edge_greatest(d2, a - 1);
        lemma_edge_range(d2, a - 1);
    }
}

/// The circle is red while the daemon cannot be reached, whatever was known of it
/// before, green while it is active and grey on standby; the letter is dark on the
/// grey only.
pub proof fn law_colours(active: bool)
    ensures
        circle_color(false, active) == seq![229u8, 115u8, 115u8],
        circle_color(true, true) == seq![76u8, 175u8, 80u8],
        circle_color(true, false) == seq![154u8, 159u8, 168u8],
        letter_color(false, active) == seq![255u8, 255u8, 255u8],
        letter_color(true, true) == seq![255u8, 255u8, 255u8],
        letter_color(true, false) == seq![60u8, 63u8, 70u8],
{
}

} // verus!
