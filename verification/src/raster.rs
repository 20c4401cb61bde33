//! The raster model: RGBA pixels on a row-major grid, the white background
//! canvas, and the compositor that blends an overlay onto the centre of a
//! canvas with alpha-over blending and silent clipping at the edges.

use vstd::prelude::*;
use vstd::pervasive::VecAdditionalExecFns;

use crate::error::RenderError;

verus! {

/// One RGBA pixel; channels run 0..=255, `a` is coverage (255 = opaque).
#[derive(Clone, Copy, PartialEq, Eq, Structural, Debug)]
pub struct Pixel {
    pub r: u8,
    pub g: u8,
    pub b: u8,
    pub a: u8,
}

/// Pure opaque white, the canvas fill colour.
pub open spec fn white() -> Pixel {
    Pixel { r: 255, g: 255, b: 255, a: 255 }
}

/// A raster: `width * height` pixels in row-major order, pixel (x, y) at
/// index `y * width + x`.
#[derive(Debug)]
pub struct RasterImage {
    pub width: u32,
    pub height: u32,
    pub pixels: Vec<Pixel>,
}

impl RasterImage {
    /// The pixel buffer holds exactly one pixel per grid cell.
    pub open spec fn wf(self) -> bool {
        self.pixels@.len() == self.width * self.height
    }
}

/// The pixel of buffer `s` (of row width `w`) at grid cell (x, y).
pub open spec fn cell(s: Seq<Pixel>, w: nat, x: int, y: int) -> Pixel {
    s[y * w + x]
}

/// One channel of alpha-over blending with integer arithmetic:
/// the overlay channel weighted by its alpha, the canvas channel by the rest.
pub open spec fn blend_channel(over: u8, under: u8, alpha: u8) -> u8 {
    (((over as int) * (alpha as int) + (under as int) * (255 - alpha as int)) / 255) as u8
}

/// Alpha-over blending of an overlay pixel onto a canvas pixel.
pub open spec fn blend(under: Pixel, over: Pixel) -> Pixel {
    Pixel {
        r: blend_channel(over.r, under.r, over.a),
        g: blend_channel(over.g, under.g, over.a),
        b: blend_channel(over.b, under.b, over.a),
        a: ((over.a as int) + (under.a as int) * (255 - over.a as int) / 255) as u8,
    }
}

/// A fully opaque overlay pixel replaces the canvas pixel outright.
pub proof fn lemma_opaque_replaces(under: Pixel, over: Pixel)
    requires
        over.a == 255,
    ensures
        blend(under, over) == over,
{
    assert((over.r as int) * 255 / 255 == over.r as int);
    assert((over.g as int) * 255 / 255 == over.g as int);
    assert((over.b as int) * 255 / 255 == over.b as int);
}

/// Executable alpha-over blending, proved equal to `blend`.
pub fn blend_px(under: Pixel, over: Pixel) -> (r: Pixel)
    ensures
        r == blend(under, over),
{
    let a: u32 = over.a as u32;
    let na: u32 = 255 - a;
    proof {
        assert(((over.r as int) * (a as int) + (under.r as int) * (na as int)) / 255 <= 255
            && (over.r as int) * (a as int) + (under.r as int) * (na as int) <= 255 * 255 + 255
            * 255) by (nonlinear_arith)
            requires
                over.r <= 255 && under.r <= 255 && na == 255 - a && a <= 255,
        ;
        assert(((over.g as int) * (a as int) + (under.g as int) * (na as int)) / 255 <= 255
            && (over.g as int) * (a as int) + (under.g as int) * (na as int) <= 255 * 255 + 255
            * 255) by (nonlinear_arith)
            requires
                over.g <= 255 && under.g <= 255 && na == 255 - a && a <= 255,
        ;
        assert(((over.b as int) * (a as int) + (under.b as int) * (na as int)) / 255 <= 255
            && (over.b as int) * (a as int) + (under.b as int) * (na as int) <= 255 * 255 + 255
            * 255) by (nonlinear_arith)
            requires
                over.b <= 255 && under.b <= 255 && na == 255 - a && a <= 255,
        ;
        assert((a as int) + (under.a as int) * (na as int) / 255 <= 255 && (under.a as int) * (
        na as int) <= 255 * 255) by (nonlinear_arith)
            requires
                under.a <= 255 && na == 255 - a && a <= 255,
        ;
    }
    Pixel {
        r: (((over.r as u32) * a + (under.r as u32) * na) / 255) as u8,
        g: (((over.g as u32) * a + (under.g as u32) * na) / 255) as u8,
        b: (((over.b as u32) * a + (under.b as u32) * na) / 255) as u8,
        a: (a + (under.a as u32) * na / 255) as u8,
    }
}

/// Left edge of the overlay inside the canvas along one dimension: centred by
/// truncating division when it fits, clipped to the canvas edge when not.
pub open spec fn dest_start(cdim: nat, odim: nat) -> int {
    if odim <= cdim {
        (cdim - odim) / 2
    } else {
        0
    }
}

/// First overlay column (or row) that lands on the canvas: zero when the
/// overlay fits, otherwise the clipped-off margin.
pub open spec fn src_start(cdim: nat, odim: nat) -> int {
    if odim <= cdim {
        0
    } else {
        (odim - cdim) / 2
    }
}

/// How many overlay columns (or rows) land on the canvas.
pub open spec fn vis_len(cdim: nat, odim: nat) -> int {
    if odim <= cdim {
        odim as int
    } else {
        cdim as int
    }
}

/// Whether canvas cell (x, y) receives an overlay pixel.
pub open spec fn covered(cw: nat, ch: nat, ow: nat, oh: nat, x: int, y: int) -> bool {
    &&& dest_start(cw, ow) <= x < dest_start(cw, ow) + vis_len(cw, ow)
    &&& dest_start(ch, oh) <= y < dest_start(ch, oh) + vis_len(ch, oh)
}

/// Index into the overlay buffer of the pixel that lands on canvas cell (x, y).
pub open spec fn src_index(cw: nat, ch: nat, ow: nat, oh: nat, x: int, y: int) -> int {
    (y - dest_start(ch, oh) + src_start(ch, oh)) * ow + (x - dest_start(cw, ow) + src_start(
        cw,
        ow,
    ))
}

/// The canvas pixel at (x, y) after compositing: blended where the overlay
/// lands, untouched elsewhere.
pub open spec fn composited_pixel(
    cw: nat,
    ch: nat,
    cpx: Seq<Pixel>,
    ow: nat,
    oh: nat,
    opx: Seq<Pixel>,
    x: int,
    y: int,
) -> Pixel {
    if covered(cw, ch, ow, oh, x, y) {
        blend(cell(cpx, cw, x, y), opx[src_index(cw, ch, ow, oh, x, y)])
    } else {
        cell(cpx, cw, x, y)
    }
}

/// The whole canvas buffer after compositing, cell by cell.
pub open spec fn composited(
    cw: nat,
    ch: nat,
    cpx: Seq<Pixel>,
    ow: nat,
    oh: nat,
    opx: Seq<Pixel>,
) -> Seq<Pixel> {
    Seq::new(
        cpx.len(),
        |k: int| composited_pixel(cw, ch, cpx, ow, oh, opx, k % (cw as int), k / (cw as int)),
    )
}

/// The pixels packed in an RGBA byte buffer, four bytes per pixel.
pub open spec fn pixels_of_bytes(b: Seq<u8>) -> Seq<Pixel> {
    Seq::new(
        b.len() / 4,
        |k: int| Pixel { r: b[4 * k], g: b[4 * k + 1], b: b[4 * k + 2], a: b[4 * k + 3] },
    )
}

/// The RGBA byte buffer that packs the pixels, four bytes per pixel.
pub open spec fn bytes_of_pixels(p: Seq<Pixel>) -> Seq<u8> {
    Seq::new(
        p.len() * 4,
        |k: int|
            {
                let px = p[k / 4];
                if k % 4 == 0 {
                    px.r
                } else if k % 4 == 1 {
                    px.g
                } else if k % 4 == 2 {
                    px.b
                } else {
                    px.a
                }
            },
    )
}

/// Unpack an RGBA byte buffer into pixels.
#[verifier::loop_isolation(false)]
pub fn pixels_from_bytes(bytes: &Vec<u8>) -> (r: Vec<Pixel>)
    requires
        bytes@.len() % 4 == 0,
    ensures
        r@ == pixels_of_bytes(bytes@),
{
    let len: usize = bytes.len();
    let n: usize = len / 4;
    proof {
        vstd::arithmetic::div_mod::lemma_fundamental_div_mod(len as int, 4);
    }
    let mut out: Vec<Pixel> = Vec::new();
    let mut i: usize = 0;
    while i < n
        invariant
            i <= n,
            out@.len() == i,
            forall|t: int| 0 <= t < i ==> out@[t] == pixels_of_bytes(bytes@)[t],
        decreases n - i,
    {
        let base: usize = 4 * i;
        out.push(
            Pixel {
                r: bytes[base],
                g: bytes[base + 1],
                b: bytes[base + 2],
                a: bytes[base + 3],
            },
        );
        i += 1;
    }
    proof {
        assert(out@ =~= pixels_of_bytes(bytes@));
    }
    out
}

/// Pack pixels into an RGBA byte buffer.
#[verifier::loop_isolation(false)]
pub fn bytes_from_pixels(pixels: &Vec<Pixel>) -> (r: Vec<u8>)
    ensures
        r@ == bytes_of_pixels(pixels@),
{
    let n: usize = pixels.len();
    let mut out: Vec<u8> = Vec::new();
    let mut i: usize = 0;
    while i < n
        invariant
            i <= n,
            out@.len() == 4 * i,
            forall|t: int| 0 <= t < 4 * i ==> out@[t] == bytes_of_pixels(pixels@)[t],
        decreases n - i,
    {
        let px: Pixel = pixels[i];
        out.push(px.r);
        out.push(px.g);
        out.push(px.b);
        out.push(px.a);
        proof {
            let ghost ii = i as int;
            assert((4 * ii) / 4 == ii && (4 * ii) % 4 == 0);
            assert((4 * ii + 1) / 4 == ii && (4 * ii + 1) % 4 == 1);
            assert((4 * ii + 2) / 4 == ii && (4 * ii + 2) % 4 == 2);
            assert((4 * ii + 3) / 4 == ii && (4 * ii + 3) % 4 == 3);
        }
        i += 1;
    }
    proof {
        assert(out@ =~= bytes_of_pixels(pixels@));
    }
    out
}

/// Row-major indices stay inside the buffer.
proof fn lemma_row_major_bound(w: int, h: int, x: int, y: int)
    requires
        0 <= x < w,
        0 <= y < h,
    ensures
        0 <= y * w + x < w * h,
{
    assert(0 <= y * w + x < w * h) by (nonlinear_arith)
        requires
            0 <= x < w && 0 <= y < h,
    ;
}

/// Row-major indexing is injective over grid cells.
proof fn lemma_row_major_injective(w: int, x1: int, y1: int, x2: int, y2: int)
    requires
        0 <= x1 < w,
        0 <= x2 < w,
        y1 * w + x1 == y2 * w + x2,
    ensures
        x1 == x2,
        y1 == y2,
{
    assert(x1 == x2 && y1 == y2) by (nonlinear_arith)
        requires
            0 <= x1 < w && 0 <= x2 < w && y1 * w + x1 == y2 * w + x2,
    ;
}

/// An overlay that fits along a dimension is centred there up to the rounding
/// of truncating division: the overlay's midpoint sits within one pixel of
/// the canvas's midpoint.
pub proof fn lemma_overlay_centering(cdim: nat, odim: nat)
    requires
        odim <= cdim,
    ensures
        -1 <= cdim / 2 - (dest_start(cdim, odim) + odim / 2) <= 1,
{
    assert(-1 <= cdim / 2 - ((cdim - odim) / 2 + odim / 2) <= 1) by (nonlinear_arith)
        requires
            odim <= cdim,
    ;
}

/// Create the background canvas: every pixel pure opaque white. Fails only
/// when a dimension is zero or the buffer cannot be addressed.
pub fn create_white_background_image(width: u32, height: u32) -> (r: Result<
    RasterImage,
    RenderError,
>)
    ensures
        r is Ok <==> (width > 0 && height > 0 && width * height <= usize::MAX),
        r is Err ==> r == Err::<RasterImage, RenderError>(RenderError::Allocation),
        r matches Ok(img) ==> img.width == width && img.height == height && img.wf() && forall|
            k: int,
        | 0 <= k < img.pixels@.len() ==> img.pixels@[k] == white(),
{
    if width == 0 || height == 0 {
        return Err(RenderError::Allocation);
    }
    proof {
        assert((width as int) * (height as int) <= 0xffff_ffff * 0xffff_ffff)
            by (nonlinear_arith)
            requires
                width <= 0xffff_ffffu32 && height <= 0xffff_ffffu32,
        ;
    }
    let total64: u64 = (width as u64) * (height as u64);
    if total64 > (usize::MAX as u64) {
        return Err(RenderError::Allocation);
    }
    let total: usize = total64 as usize;
    let mut pixels: Vec<Pixel> = Vec::new();
    while pixels.len() < total
        invariant
            pixels@.len() <= total,
            forall|k: int| 0 <= k < pixels@.len() ==> pixels@[k] == white(),
        decreases total - pixels@.len(),
    {
        pixels.push(Pixel { r: 255, g: 255, b: 255, a: 255 });
    }
    Ok(RasterImage { width, height, pixels })
}

/// Where the main loops have got to, in overlay-relative coordinates:
/// visible cell (rx, ry) has been written already iff it is lexicographically
/// before (i, j) in row-major order.
spec fn written_before(rx: int, ry: int, i: int, j: int) -> bool {
    ry < j || (ry == j && rx < i)
}

/// Loop invariant of the compositor: cells already visited hold their
/// composited value, all others still hold the original canvas value.
spec fn partial_composite(
    cw: nat,
    ch: nat,
    c0: Seq<Pixel>,
    ow: nat,
    oh: nat,
    opx: Seq<Pixel>,
    cur: Seq<Pixel>,
    i: int,
    j: int,
) -> bool {
    &&& cur.len() == c0.len()
    &&& forall|x: int, y: int|
        0 <= x < cw && 0 <= y < ch ==> #[trigger] cell(cur, cw, x, y) == (if covered(
            cw,
            ch,
            ow,
            oh,
            x,
            y,
        ) && written_before(x - dest_start(cw, ow), y - dest_start(ch, oh), i, j) {
            composited_pixel(cw, ch, c0, ow, oh, opx, x, y)
        } else {
            cell(c0, cw, x, y)
        })
}

/// Composite the overlay onto the centre of the canvas in place: alpha-over
/// blending where the overlay lands, silent clipping where it sticks out.
/// The canvas keeps its dimensions whatever the overlay's size.
#[verifier::loop_isolation(false)]
#[verifier::rlimit(80)]
pub fn overlay_centered(canvas: &mut RasterImage, overlay: &RasterImage)
    requires
        old(canvas).wf(),
        overlay.wf(),
    ensures
        final(canvas).wf(),
        final(canvas).width == old(canvas).width,
        final(canvas).height == old(canvas).height,
        final(canvas).pixels@ == composited(
            old(canvas).width as nat,
            old(canvas).height as nat,
            old(canvas).pixels@,
            overlay.width as nat,
            overlay.height as nat,
            overlay.pixels@,
        ),
        forall|x: int, y: int|
            0 <= x < old(canvas).width && 0 <= y < old(canvas).height ==> cell(
                final(canvas).pixels@,
                old(canvas).width as nat,
                x,
                y,
            ) == composited_pixel(
                old(canvas).width as nat,
                old(canvas).height as nat,
                old(canvas).pixels@,
                overlay.width as nat,
                overlay.height as nat,
                overlay.pixels@,
                x,
                y,
            ),
{
    let cw: u32 = canvas.width;
    let ch: u32 = canvas.height;
    let ow: u32 = overlay.width;
    let oh: u32 = overlay.height;
    let ghost cwn = cw as nat;
    let ghost chn = ch as nat;
    let ghost own = ow as nat;
    let ghost ohn = oh as nat;
    let ghost c0 = canvas.pixels@;
    let ghost opx = overlay.pixels@;
    let dx0: usize = if ow <= cw {
        (((cw - ow) / 2) as usize)
    } else {
        0
    };
    let sx0: usize = if ow <= cw {
        0
    } else {
        (((ow - cw) / 2) as usize)
    };
    let vw: usize = if ow <= cw {
        (ow as usize)
    } else {
        (cw as usize)
    };
    let dy0: usize = if oh <= ch {
        (((ch - oh) / 2) as usize)
    } else {
        0
    };
    let sy0: usize = if oh <= ch {
        0
    } else {
        (((oh - ch) / 2) as usize)
    };
    let vh: usize = if oh <= ch {
        (oh as usize)
    } else {
        (ch as usize)
    };
    let cn: usize = canvas.pixels.len();
    let on: usize = overlay.pixels.len();
    proof {
        assert(dx0 == dest_start(cwn, own));
        assert(dy0 == dest_start(chn, ohn));
        assert(sx0 == src_start(cwn, own));
        assert(sy0 == src_start(chn, ohn));
        assert(vw == vis_len(cwn, own));
        assert(vh == vis_len(chn, ohn));
        assert(dx0 + vw <= cw);
        assert(dy0 + vh <= ch);
        assert(sx0 + vw <= ow);
        assert(sy0 + vh <= oh);
    }
    let mut j: usize = 0;
    while j < vh
        invariant
            canvas.width == cw,
            canvas.height == ch,
            canvas.pixels@.len() == cn,
            j <= vh,
            partial_composite(cwn, chn, c0, own, ohn, opx, canvas.pixels@, 0, j as int),
        decreases vh - j,
    {
        let mut i: usize = 0;
        while i < vw
            invariant
                canvas.width == cw,
                canvas.height == ch,
                canvas.pixels@.len() == cn,
                j < vh,
                i <= vw,
                partial_composite(cwn, chn, c0, own, ohn, opx, canvas.pixels@, i as int, j as int),
            decreases vw - i,
        {
            let x: usize = dx0 + i;
            let y: usize = dy0 + j;
            proof {
                lemma_row_major_bound(cw as int, ch as int, x as int, y as int);
            }
            let dst: usize = y * (cw as usize) + x;
            let sxx: usize = sx0 + i;
            let syy: usize = sy0 + j;
            proof {
                lemma_row_major_bound(ow as int, oh as int, sxx as int, syy as int);
            }
            let src: usize = syy * (ow as usize) + sxx;
            let ghost prev = canvas.pixels@;
            let under: Pixel = canvas.pixels[dst];
            let over: Pixel = overlay.pixels[src];
            proof {
                assert(covered(cwn, chn, own, ohn, x as int, y as int));
                assert(!written_before(i as int, j as int, i as int, j as int));
                assert(cell(prev, cwn, x as int, y as int) == cell(c0, cwn, x as int, y as int));
                let ghost yi: int = y as int;
                let ghost xi: int = x as int;
                assert((cwn as int) == cw as int);
                assert(dst as int == yi * (cw as int) + xi);
                assert(yi * (cw as int) == yi * (cwn as int));
                assert(dst as int == yi * (cwn as int) + xi);
                assert(under == prev[dst as int]);
                assert(under == cell(prev, cwn, xi, yi));
                assert(under == cell(c0, cwn, x as int, y as int));
                let ghost ry: int = yi - dest_start(chn, ohn) + src_start(chn, ohn);
                let ghost rx: int = xi - dest_start(cwn, own) + src_start(cwn, own);
                assert(ry == syy as int);
                assert(rx == sxx as int);
                assert(src_index(cwn, chn, own, ohn, xi, yi) == ry * (own as int) + rx);
                assert(ry * (own as int) == (syy as int) * (own as int));
                assert((syy as int) * (own as int) == (syy as int) * (ow as int));
                assert(src as int == (syy as int) * (ow as int) + (sxx as int));
                assert(src == src_index(cwn, chn, own, ohn, x as int, y as int));
            }
            let blended: Pixel = blend_px(under, over);
            canvas.pixels.set(dst, blended);
            proof {
                assert(blended == composited_pixel(
                    cwn,
                    chn,
                    c0,
                    own,
                    ohn,
                    opx,
                    x as int,
                    y as int,
                ));
                assert(cell(canvas.pixels@, cwn, x as int, y as int) == blended);
                assert forall|px: int, py: int| 0 <= px < cwn && 0 <= py < chn implies #[trigger] cell(
                    canvas.pixels@,
                    cwn,
                    px,
                    py,
                ) == (if covered(cwn, chn, own, ohn, px, py) && written_before(
                    px - dest_start(cwn, own),
                    py - dest_start(chn, ohn),
                    i + 1,
                    j as int,
                ) {
                    composited_pixel(cwn, chn, c0, own, ohn, opx, px, py)
                } else {
                    cell(c0, cwn, px, py)
                }) by {
                    lemma_row_major_bound(cw as int, ch as int, px, py);
                    if py * (cwn as int) + px == dst as int {
                        lemma_row_major_injective(cw as int, px, py, x as int, y as int);
                        assert(px == x as int && py == y as int);
                    } else {
                        assert(cell(canvas.pixels@, cwn, px, py) == cell(prev, cwn, px, py));
                        assert(cell(prev, cwn, px, py) == (if covered(cwn, chn, own, ohn, px, py)
                            && written_before(
                            px - dest_start(cwn, own),
                            py - dest_start(chn, ohn),
                            i as int,
                            j as int,
                        ) {
                            composited_pixel(cwn, chn, c0, own, ohn, opx, px, py)
                        } else {
                            cell(c0, cwn, px, py)
                        }));
                        if covered(cwn, chn, own, ohn, px, py) {
                            assert(written_before(
                                px - dest_start(cwn, own),
                                py - dest_start(chn, ohn),
                                i + 1,
                                j as int,
                            ) == written_before(
                                px - dest_start(cwn, own),
                                py - dest_start(chn, ohn),
                                i as int,
                                j as int,
                            )) by {
                                if px - dest_start(cwn, own) == i as int && py - dest_start(
                                    chn,
                                    ohn,
                                ) == j as int {
                                    assert(px == dx0 + i && py == dy0 + j);
                                    assert(py * (cwn as int) + px == dst as int);
                                }
                            }
                        }
                    }
                }
            }
            i += 1;
        }
        j += 1;
        proof {
            assert forall|px: int, py: int| 0 <= px < cwn && 0 <= py < chn implies #[trigger] cell(
                canvas.pixels@,
                cwn,
                px,
                py,
            ) == (if covered(cwn, chn, own, ohn, px, py) && written_before(
                px - dest_start(cwn, own),
                py - dest_start(chn, ohn),
                0,
                j as int,
            ) {
                composited_pixel(cwn, chn, c0, own, ohn, opx, px, py)
            } else {
                cell(c0, cwn, px, py)
            }) by {
                assert(cell(canvas.pixels@, cwn, px, py) == (if covered(cwn, chn, own, ohn, px, py)
                    && written_before(
                    px - dest_start(cwn, own),
                    py - dest_start(chn, ohn),
                    vw as int,
                    (j - 1) as int,
                ) {
                    composited_pixel(cwn, chn, c0, own, ohn, opx, px, py)
                } else {
                    cell(c0, cwn, px, py)
                }));
            }
        }
    }
    proof {
        let cur = canvas.pixels@;
        let full = composited(cwn, chn, c0, own, ohn, opx);
        assert forall|k: int| 0 <= k < cur.len() implies cur[k] == full[k] by {
            assert(cw > 0) by {
                if cw == 0 {
                    assert(cn == 0);
                }
            }
            let x = k % (cw as int);
            let y = k / (cw as int);
            vstd::arithmetic::div_mod::lemma_fundamental_div_mod(k, cw as int);
            vstd::arithmetic::div_mod::lemma_mod_bound(k, cw as int);
            assert(k == y * (cw as int) + x);
            assert(y < ch as int) by (nonlinear_arith)
                requires
                    k == y * (cw as int) + x && 0 <= x < cw as int && k < (cw as int) * (ch as int)
                        && cw > 0 && 0 <= y,
            ;
            assert(cell(cur, cwn, x, y) == composited_pixel(cwn, chn, c0, own, ohn, opx, x, y));
        }
        assert(cur =~= full);
        assert forall|x: int, y: int| 0 <= x < cwn && 0 <= y < chn implies cell(
            cur,
            cwn,
            x,
            y,
        ) == composited_pixel(cwn, chn, c0, own, ohn, opx, x, y) by {
            lemma_row_major_bound(cw as int, ch as int, x, y);
        }
    }
}

} // verus!
