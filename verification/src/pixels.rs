//! Pixel-buffer checks: average-colour comparison for rendered RGBA8
//! frames, and unpacking of packed colours.

use vstd::prelude::*;

use crate::messages::{DisplayList, DrawCmd};

verus! {

/// Sum of channel `off` (0 red, 1 green, 2 blue) over the first `n`
/// complete four-byte pixels of `p`.
pub open spec fn chan_sum(p: Seq<u8>, off: int, n: int) -> int
    decreases n,
{
    if n <= 0 {
        0
    } else {
        chan_sum(p, off, n - 1) + p[4 * (n - 1) + off]
    }
}

/// Absolute difference of two integers.
pub open spec fn abs_diff(a: int, b: int) -> int {
    if a >= b {
        a - b
    } else {
        b - a
    }
}

/// Whether the average colour over the complete pixels of `p` is
/// within `tolerance` of `color` on every channel.
pub open spec fn roughly_color(p: Seq<u8>, color: (u8, u8, u8), tolerance: u8) -> bool {
    let n = p.len() as int / 4;
    &&& n > 0
    &&& abs_diff(chan_sum(p, 0, n) / n, color.0 as int) <= tolerance
    &&& abs_diff(chan_sum(p, 1, n) / n, color.1 as int) <= tolerance
    &&& abs_diff(chan_sum(p, 2, n) / n, color.2 as int) <= tolerance
}

/// Whether the average RGB over the buffer's complete pixels is within
/// `tolerance` of the target colour; false for a buffer without one
/// complete pixel. The length bound keeps the channel sums within
/// machine range.
#[verifier::loop_isolation(false)]
pub fn is_roughly_color_rgba8(pixels: &[u8], color: (u8, u8, u8), tolerance: u8) -> (r: bool)
    requires
        pixels@.len() < 0x0100_0000_0000_0000,
    ensures
        r == roughly_color(pixels@, color, tolerance),
{
    let len = pixels.len();
    let count = len / 4;
    if count == 0 {
        return false;
    }
    let mut sum_r: u64 = 0;
    let mut sum_g: u64 = 0;
    let mut sum_b: u64 = 0;
    for i in 0..count
        invariant
            sum_r == chan_sum(pixels@, 0, i as int),
            sum_g == chan_sum(pixels@, 1, i as int),
            sum_b == chan_sum(pixels@, 2, i as int),
            sum_r <= 255 * i,
            sum_g <= 255 * i,
            sum_b <= 255 * i,
    {
        sum_r = sum_r + (pixels[4 * i] as u64);
        sum_g = sum_g + (pixels[4 * i + 1] as u64);
        sum_b = sum_b + (pixels[4 * i + 2] as u64);
    }
    let avg_r = sum_r / (count as u64);
    let avg_g = sum_g / (count as u64);
    let avg_b = sum_b / (count as u64);
    let dr = if avg_r >= (color.0 as u64) {
        avg_r - (color.0 as u64)
    } else {
        (color.0 as u64) - avg_r
    };
    let dg = if avg_g >= (color.1 as u64) {
        avg_g - (color.1 as u64)
    } else {
        (color.1 as u64) - avg_g
    };
    let db = if avg_b >= (color.2 as u64) {
        avg_b - (color.2 as u64)
    } else {
        (color.2 as u64) - avg_b
    };
    dr <= (tolerance as u64) && dg <= (tolerance as u64) && db <= (tolerance as u64)
}

/// Unpack a `0xAARRGGBB` colour into its `(alpha, red, green, blue)`
/// bytes.
pub fn unpack_argb_u32(v: u32) -> (r: (u8, u8, u8, u8))
    ensures
        r.0 == ((v >> 24) & 0xFF) as u8,
        r.1 == ((v >> 16) & 0xFF) as u8,
        r.2 == ((v >> 8) & 0xFF) as u8,
        r.3 == (v & 0xFF) as u8,
{
    let a = ((v >> 24) & 0xFF) as u8;
    let r = ((v >> 16) & 0xFF) as u8;
    let g = ((v >> 8) & 0xFF) as u8;
    let b = (v & 0xFF) as u8;
    (a, r, g, b)
}

/// Whether pixel `(x, y)` of a `width`-by-`height` buffer is covered
/// by the rectangle of `c`.
pub open spec fn covers(c: DrawCmd, width: u32, height: u32, x: int, y: int) -> bool {
    match c {
        DrawCmd::Rect { x: rx, y: ry, w, h, .. } => {
            &&& rx <= x < rx + w
            &&& x < width
            &&& ry <= y < ry + h
            &&& y < height
        },
    }
}

/// Source-over blending of one 8-bit channel with alpha `a`.
pub open spec fn blend(dst: u8, src: u8, a: u8) -> u8 {
    (((src as int) * (a as int) + (dst as int) * (255 - a as int)) / 255) as u8
}

/// Channel `ch` (0 red, 1 green, 2 blue, 3 alpha) of pixel `(x, y)`
/// after painting the commands in order over a zeroed buffer: covered
/// colour channels are blended by the command's alpha, the alpha
/// channel is forced opaque.
pub open spec fn painted_chan(
    cmds: Seq<DrawCmd>,
    width: u32,
    height: u32,
    x: int,
    y: int,
    ch: int,
) -> u8
    decreases cmds.len(),
{
    if cmds.len() == 0 {
        0
    } else {
        let prev = painted_chan(cmds.drop_last(), width, height, x, y, ch);
        let c = cmds.last();
        if covers(c, width, height, x, y) {
            match c {
                DrawCmd::Rect { rgba, .. } => {
                    if ch == 3 {
                        255
                    } else {
                        let a = ((rgba >> 24) & 0xFF) as u8;
                        let v = if ch == 0 {
                            ((rgba >> 16) & 0xFF) as u8
                        } else if ch == 1 {
                            ((rgba >> 8) & 0xFF) as u8
                        } else {
                            (rgba & 0xFF) as u8
                        };
                        blend(prev, v, a)
                    }
                },
            }
        } else {
            prev
        }
    }
}

proof fn lemma_pixel_index_unique(width: u32, px: int, py: int, qx: int, qy: int)
    requires
        0 <= px < width,
        0 <= qx < width,
        0 <= py,
        0 <= qy,
        py * (width as int) + px == qy * (width as int) + qx,
    ensures
        px == qx && py == qy,
{
    assert(px == qx && py == qy) by (nonlinear_arith)
        requires
            0 <= px < width,
            0 <= qx < width,
            0 <= py,
            0 <= qy,
            py * (width as int) + px == qy * (width as int) + qx,
    ;
}

/// The buffer state mid-paint: every pixel covered by `cmd` in a row
/// before `rows`, or in row `rows` left of `cols`, already shows the
/// painting `after`; every other pixel still shows `before`.
pub open spec fn painted_upto(
    buf: Seq<u8>,
    before: Seq<DrawCmd>,
    after: Seq<DrawCmd>,
    cmd: DrawCmd,
    width: u32,
    height: u32,
    rows: int,
    cols: int,
) -> bool {
    forall|px: int, py: int, ch: int|
        #![trigger buf[4 * (py * (width as int) + px) + ch]]
        0 <= px < width && 0 <= py < height && 0 <= ch < 4 ==> buf[4 * (py * (width as int) + px)
            + ch] == (if covers(cmd, width, height, px, py) && (py < rows || (py == rows && px
            < cols)) {
            painted_chan(after, width, height, px, py, ch)
        } else {
            painted_chan(before, width, height, px, py, ch)
        })
}

/// Rasterise a display list into a zero-initialised RGBA8 buffer of
/// `width * height` pixels, painting the commands in order with
/// source-over blending; every pixel ends as [`painted_chan`] says.
/// The buffer size must fit the 32-bit arithmetic it is computed with.
#[verifier::loop_isolation(false)]
#[verifier::rlimit(100)]
pub fn rasterize_dl_rgba8(width: u32, height: u32, dl: &DisplayList) -> (r: Vec<u8>)
    requires
        4 * (width as int) * (height as int) <= u32::MAX,
    ensures
        r@.len() == 4 * (width as int) * (height as int),
        forall|x: int, y: int, ch: int|
            0 <= x < width && 0 <= y < height && 0 <= ch < 4 ==> r@[4 * (y * (width as int) + x)
                + ch] == painted_chan(dl.items@, width, height, x, y, ch),
{
    proof {
        assert((width as int) * (height as int) * 4 == 4 * (width as int) * (height as int))
            by (nonlinear_arith);
        assert((width as int) * (height as int) <= u32::MAX) by (nonlinear_arith)
            requires
                4 * (width as int) * (height as int) <= u32::MAX,
                width >= 0,
                height >= 0,
        ;
    }
    let len = (width * height * 4) as usize;
    let mut buf = vec![0u8; len];
    let n = dl.items.len();
    let mut ci: usize = 0;
    proof {
        assert(dl.items@.take(0) =~= Seq::<DrawCmd>::empty());
        assert forall|px: int, py: int, ch: int|
            #![trigger buf@[4 * (py * (width as int) + px) + ch]]
            0 <= px < width && 0 <= py < height && 0 <= ch < 4 implies buf@[4 * (py * (
        width as int) + px) + ch] == painted_chan(
            dl.items@.take(0),
            width,
            height,
            px,
            py,
            ch,
        ) by {
            assert(py * (width as int) + px < (width as int) * (height as int))
                by (nonlinear_arith)
                requires
                    0 <= px < width,
                    0 <= py < height,
            ;
            assert(painted_chan(dl.items@.take(0), width, height, px, py, ch) == 0);
        }
    }
    while ci < n
        invariant
            ci <= n,
            buf@.len() == 4 * (width as int) * (height as int),
            forall|x: int, y: int, ch: int|
                #![trigger buf@[4 * (y * (width as int) + x) + ch]]
                0 <= x < width && 0 <= y < height && 0 <= ch < 4 ==> buf@[4 * (y * (
                width as int) + x) + ch] == painted_chan(
                    dl.items@.take(ci as int),
                    width,
                    height,
                    x,
                    y,
                    ch,
                ),
        decreases n - ci,
    {
        let DrawCmd::Rect { x, y, w, h, rgba } = dl.items[ci];
        let (a, cr, cg, cb) = unpack_argb_u32(rgba);
        let ghost cmd = dl.items@[ci as int];
        let ghost before = dl.items@.take(ci as int);
        let ghost after = dl.items@.take(ci + 1);
        proof {
            assert(after.drop_last() =~= before);
            assert(after.last() == cmd);
        }
        let y_end = if y.saturating_add(h) < height {
            y.saturating_add(h)
        } else {
            height
        };
        let x_end = if x.saturating_add(w) < width {
            x.saturating_add(w)
        } else {
            width
        };
        let mut yy = y;
        proof {
            assert forall|px: int, py: int, ch: int|
                #![trigger buf@[4 * (py * (width as int) + px) + ch]]
                0 <= px < width && 0 <= py < height && 0 <= ch < 4 implies buf@[4 * (py * (
            width as int) + px) + ch] == (if covers(cmd, width, height, px, py) && (py < yy || (
            py == yy && px < 0)) {
                painted_chan(after, width, height, px, py, ch)
            } else {
                painted_chan(before, width, height, px, py, ch)
            }) by {
                if covers(cmd, width, height, px, py) {
                    assert(py >= y);
                }
            }
            assert(painted_upto(buf@, before, after, cmd, width, height, yy as int, 0));
        }
        while yy < y_end
            invariant
                y <= yy <= y_end || yy == y,
                buf@.len() == 4 * (width as int) * (height as int),
                painted_upto(buf@, before, after, cmd, width, height, yy as int, 0),
            decreases y_end - yy,
        {
            let mut xx = x;
            proof {
                assert forall|px: int, py: int, ch: int|
                    #![trigger buf@[4 * (py * (width as int) + px) + ch]]
                    0 <= px < width && 0 <= py < height && 0 <= ch < 4 implies buf@[4 * (py * (
                width as int) + px) + ch] == (if covers(cmd, width, height, px, py) && (py < yy
                    || (py == yy && px < xx)) {
                    painted_chan(after, width, height, px, py, ch)
                } else {
                    painted_chan(before, width, height, px, py, ch)
                }) by {
                    if covers(cmd, width, height, px, py) && py == yy {
                        assert(px >= x);
                    }
                }
                assert(painted_upto(buf@, before, after, cmd, width, height, yy as int, xx as int));
            }
            while xx < x_end
                invariant
                    x <= xx <= x_end || xx == x,
                    yy < y_end,
                    buf@.len() == 4 * (width as int) * (height as int),
                    painted_upto(buf@, before, after, cmd, width, height, yy as int, xx as int),
                decreases x_end - xx,
            {
                proof {
                    assert((yy as int) * (width as int) + (xx as int) < (width as int) * (
                    height as int)) by (nonlinear_arith)
                        requires
                            0 <= (yy as int) < (height as int),
                            0 <= (xx as int) < (width as int),
                    ;
                }
                let idx = ((yy * width + xx) * 4) as usize;
                let sa = a as u32;
                let da = 255u32 - sa;
                let ghost row_buf = buf@;
                let old_r = buf[idx];
                let old_g = buf[idx + 1];
                let old_b = buf[idx + 2];
                proof {
                    assert((cr as int) * (sa as int) + (old_r as int) * (da as int) <= 255 * 255)
                        by (nonlinear_arith)
                        requires
                            cr <= 255,
                            old_r <= 255,
                            sa <= 255,
                            da == 255 - sa,
                    ;
                    assert((cg as int) * (sa as int) + (old_g as int) * (da as int) <= 255 * 255)
                        by (nonlinear_arith)
                        requires
                            cg <= 255,
                            old_g <= 255,
                            sa <= 255,
                            da == 255 - sa,
                    ;
                    assert((cb as int) * (sa as int) + (old_b as int) * (da as int) <= 255 * 255)
                        by (nonlinear_arith)
                        requires
                            cb <= 255,
                            old_b <= 255,
                            sa <= 255,
                            da == 255 - sa,
                    ;
                }
                buf[idx] = (((cr as u32) * sa + (old_r as u32) * da) / 255) as u8;
                buf[idx + 1] = (((cg as u32) * sa + (old_g as u32) * da) / 255) as u8;
                buf[idx + 2] = (((cb as u32) * sa + (old_b as u32) * da) / 255) as u8;
                buf[idx + 3] = 255u8;
                proof {
                    let q = (yy as int) * (width as int) + (xx as int);
                    assert(covers(cmd, width, height, xx as int, yy as int));
                    assert forall|px: int, py: int, ch: int|
                        #![trigger buf@[4 * (py * (width as int) + px) + ch]]
                        0 <= px < width && 0 <= py < height && 0 <= ch < 4 implies buf@[4 * (py * (
                    width as int) + px) + ch] == (if covers(cmd, width, height, px, py) && (py
                        < yy || (py == yy && px < xx + 1)) {
                        painted_chan(after, width, height, px, py, ch)
                    } else {
                        painted_chan(before, width, height, px, py, ch)
                    }) by {
                        let p = py * (width as int) + px;
                        assert(py * (width as int) + px < (width as int) * (height as int))
                            by (nonlinear_arith)
                            requires
                                0 <= px < (width as int),
                                0 <= py < (height as int),
                        ;
                        assert(row_buf[4 * p + ch] == (if covers(cmd, width, height, px, py) && (
                        py < yy || (py == yy && px < xx)) {
                            painted_chan(after, width, height, px, py, ch)
                        } else {
                            painted_chan(before, width, height, px, py, ch)
                        }));
                        if p == q {
                            lemma_pixel_index_unique(width, px, py, xx as int, yy as int);
                            assert(px == xx as int && py == yy as int);
                            if ch == 0 {
                                assert(buf@[4 * q] == blend(old_r, cr, a));
                                assert(old_r == painted_chan(before, width, height, px, py, 0));
                            } else if ch == 1 {
                                assert(buf@[4 * q + 1] == blend(old_g, cg, a));
                                assert(old_g == painted_chan(before, width, height, px, py, 1));
                            } else if ch == 2 {
                                assert(buf@[4 * q + 2] == blend(old_b, cb, a));
                                assert(old_b == painted_chan(before, width, height, px, py, 2));
                            } else {
                                assert(buf@[4 * q + 3] == 255u8);
                            }
                            assert(painted_chan(after, width, height, px, py, ch) == (if ch == 3 {
                                255u8
                            } else {
                                blend(
                                    painted_chan(before, width, height, px, py, ch),
                                    if ch == 0 {
                                        cr
                                    } else if ch == 1 {
                                        cg
                                    } else {
                                        cb
                                    },
                                    a,
                                )
                            }));
                        } else {
                            assert(4 * p + ch != 4 * q);
                            assert(4 * p + ch != 4 * q + 1);
                            assert(4 * p + ch != 4 * q + 2);
                            assert(4 * p + ch != 4 * q + 3);
                            assert(buf@[4 * p + ch] == row_buf[4 * p + ch]);
                            if covers(cmd, width, height, px, py) && py == yy && px < xx + 1
                                && !(px < xx) {
                                assert(px == xx as int);
                                assert(p == q);
                            }
                        }
                    }
                    assert(painted_upto(
                        buf@,
                        before,
                        after,
                        cmd,
                        width,
                        height,
                        yy as int,
                        xx + 1,
                    ));
                }
                xx = xx + 1;
            }
            proof {
                assert forall|px: int, py: int, ch: int|
                    #![trigger buf@[4 * (py * (width as int) + px) + ch]]
                    0 <= px < width && 0 <= py < height && 0 <= ch < 4 implies buf@[4 * (py * (
                width as int) + px) + ch] == (if covers(cmd, width, height, px, py) && (py < yy
                    + 1 || (py == yy + 1 && px < 0)) {
                    painted_chan(after, width, height, px, py, ch)
                } else {
                    painted_chan(before, width, height, px, py, ch)
                }) by {
                    if covers(cmd, width, height, px, py) && py == yy {
                        assert(px < x_end);
                    }
                }
                assert(painted_upto(buf@, before, after, cmd, width, height, yy + 1, 0));
            }
            yy = yy + 1;
        }
        proof {
            assert forall|px: int, py: int, ch: int|
                #![trigger buf@[4 * (py * (width as int) + px) + ch]]
                0 <= px < width && 0 <= py < height && 0 <= ch < 4 implies buf@[4 * (py * (
            width as int) + px) + ch] == painted_chan(after, width, height, px, py, ch) by {
                if covers(cmd, width, height, px, py) {
                    assert(py < y_end);
                }
            }
        }
        ci = ci + 1;
    }
    proof {
        assert(dl.items@.take(n as int) =~= dl.items@);
    }
    buf
}

} // verus!
