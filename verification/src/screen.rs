//! Screen-share frame data and the pixel arithmetic of the capture and
//! viewer pipelines. JPEG coding and terminal drawing around it are the
//! caller's concern.

use vstd::prelude::*;

verus! {

/// Frame data sent over the wire (serialized inside the encrypted ciphertext).
pub struct ScreenFrameData {
    pub width: u32,
    pub height: u32,
    /// JPEG-compressed frame data.
    pub jpeg_data: Vec<u8>,
    /// Frame sequence number (for ordering and drop detection).
    pub seq: u64,
}

/// A decoded frame ready for rendering: RGB pixel data, three bytes per pixel.
pub struct DecodedFrame {
    pub width: u32,
    pub height: u32,
    pub rgb: Vec<u8>,
}

/// The (R, G, B) value of a frame at (x, y): black outside the frame or past
/// the end of the pixel data.
pub open spec fn pixel_spec(f: &DecodedFrame, x: u32, y: u32) -> (u8, u8, u8) {
    if x >= f.width || y >= f.height {
        (0u8, 0u8, 0u8)
    } else {
        let off = 3 * (y as int * f.width as int + x as int);
        if off + 2 < f.rgb@.len() {
            (f.rgb@[off], f.rgb@[off + 1], f.rgb@[off + 2])
        } else {
            (0u8, 0u8, 0u8)
        }
    }
}

impl DecodedFrame {
    /// Get a pixel (R, G, B) at (x, y), with bounds checking.
    pub fn pixel(&self, x: u32, y: u32) -> (r: (u8, u8, u8))
        ensures
            r == pixel_spec(self, x, y),
    {
        if x >= self.width || y >= self.height {
            return (0, 0, 0);
        }
        proof {
            assert(y as int * self.width as int <= 0xffffffff * 0xffffffff) by (nonlinear_arith)
                requires
                    0 <= y as int <= 0xffffffff,
                    0 <= self.width as int <= 0xffffffff,
            ;
        }
        let off = 3 * ((y as u128) * (self.width as u128) + (x as u128));
        if off + 2 < self.rgb.len() as u128 {
            let off = off as usize;
            (self.rgb[off], self.rgb[off + 1], self.rgb[off + 2])
        } else {
            (0, 0, 0)
        }
    }
}

/// A widget that renders a decoded frame with half-block characters.
pub struct ScreenWidget<'a> {
    pub frame: &'a DecodedFrame,
}

impl<'a> ScreenWidget<'a> {
    pub fn new(frame: &'a DecodedFrame) -> (r: ScreenWidget<'a>)
        ensures
            r.frame == frame,
    {
        ScreenWidget { frame }
    }
}

/// The sampled (R, G, B) for a terminal pixel: black in the letterbox or
/// pillarbox margins, else the nearest source pixel of the rendered area.
pub open spec fn sample_spec(
    f: &DecodedFrame,
    px: u32,
    py: u32,
    x_offset: u32,
    y_offset: u32,
    render_w: u32,
    render_h: u32,
) -> (u8, u8, u8) {
    if px < x_offset || py < y_offset {
        (0u8, 0u8, 0u8)
    } else {
        let rx = px - x_offset;
        let ry = py - y_offset;
        if rx >= render_w || ry >= render_h {
            (0u8, 0u8, 0u8)
        } else {
            let src_x = rx as int * f.width as int / render_w as int;
            let src_y = ry as int * f.height as int / render_h as int;
            pixel_spec(f, src_x as u32, src_y as u32)
        }
    }
}

/// Sample a pixel from the frame, mapping terminal pixel coordinates to
/// source coordinates (nearest neighbour).
pub fn sample_pixel(
    frame: &DecodedFrame,
    px: u32,
    py: u32,
    x_offset: u32,
    y_offset: u32,
    render_w: u32,
    render_h: u32,
) -> (r: (u8, u8, u8))
    ensures
        r == sample_spec(frame, px, py, x_offset, y_offset, render_w, render_h),
{
    if px < x_offset || py < y_offset {
        return (0, 0, 0);
    }
    let rx = px - x_offset;
    let ry = py - y_offset;
    if rx >= render_w || ry >= render_h {
        return (0, 0, 0);
    }
    proof {
        assert(rx as int * frame.width as int <= 0xffffffff * 0xffffffff && rx as int
            * frame.width as int / render_w as int <= frame.width as int) by (nonlinear_arith)
            requires
                0 <= rx as int,
                (rx as int) < render_w as int,
                render_w as int > 0,
                0 <= frame.width as int <= 0xffffffff,
                rx as int <= 0xffffffff,
        ;
        assert(ry as int * frame.height as int <= 0xffffffff * 0xffffffff && ry as int
            * frame.height as int / render_h as int <= frame.height as int) by (nonlinear_arith)
            requires
                0 <= ry as int,
                (ry as int) < render_h as int,
                render_h as int > 0,
                0 <= frame.height as int <= 0xffffffff,
                ry as int <= 0xffffffff,
        ;
    }
    let src_x = ((rx as u64) * (frame.width as u64) / (render_w as u64)) as u32;
    let src_y = ((ry as u64) * (frame.height as u64) / (render_h as u64)) as u32;
    frame.pixel(src_x, src_y)
}

/// The byte at position `k` of the converted image: BGRA read at the
/// nearest-neighbour source position, reordered to RGB, black where the
/// source buffer ends early.
pub open spec fn scaled_rgb_at(
    bgra: Seq<u8>,
    src_w: int,
    src_h: int,
    stride: int,
    dst_w: int,
    dst_h: int,
    k: int,
) -> u8 {
    let p = k / 3;
    let c = k % 3;
    let x = p % dst_w;
    let y = p / dst_w;
    let sx = x * src_w / dst_w;
    let sy = y * src_h / dst_h;
    let off = sy * stride + sx * 4;
    if off + 2 < bgra.len() {
        if c == 0 {
            bgra[off + 2]
        } else if c == 1 {
            bgra[off + 1]
        } else {
            bgra[off]
        }
    } else {
        0u8
    }
}

/// Convert a BGRA capture buffer to RGB, downscaling by nearest neighbour.
pub fn bgra_to_rgb_scaled(
    bgra: &[u8],
    src_w: usize,
    src_h: usize,
    stride: usize,
    dst_w: u32,
    dst_h: u32,
) -> (r: Vec<u8>)
    requires
        0 < dst_w <= 0x10000,
        0 < dst_h <= 0x10000,
        src_w <= 0x100000,
        src_h <= 0x100000,
        stride <= 0x100000,
    ensures
        r@.len() == 3 * dst_w as int * dst_h as int,
        forall|k: int|
            0 <= k < r@.len() ==> r@[k] == scaled_rgb_at(
                bgra@,
                src_w as int,
                src_h as int,
                stride as int,
                dst_w as int,
                dst_h as int,
                k,
            ),
{
    let mut rgb: Vec<u8> = Vec::new();
    let mut y: u32 = 0;
    while y < dst_h
        invariant
            y <= dst_h,
            0 < dst_w <= 0x10000,
            0 < dst_h <= 0x10000,
            src_w <= 0x100000,
            src_h <= 0x100000,
            stride <= 0x100000,
            rgb@.len() == 3 * dst_w as int * y as int,
            forall|k: int|
                0 <= k < rgb@.len() ==> rgb@[k] == scaled_rgb_at(
                    bgra@,
                    src_w as int,
                    src_h as int,
                    stride as int,
                    dst_w as int,
                    dst_h as int,
                    k,
                ),
        decreases dst_h - y,
    {
        proof {
            assert(y as int * src_h as int <= 0x10000 * 0x100000 && y as int * src_h as int
                / dst_h as int <= src_h as int) by (nonlinear_arith)
                requires
                    0 <= y as int,
                    (y as int) < dst_h as int,
                    0 < dst_h as int,
                    0 <= src_h as int,
                    src_h as int <= 0x100000,
                    dst_h as int <= 0x10000,
            ;
        }
        let src_y = ((y as u64) * (src_h as u64) / (dst_h as u64)) as usize;
        proof {
            assert(3 * dst_w as int * y as int == 3 * (dst_w as int * y as int + 0)) by (
            nonlinear_arith);
        }
        let mut x: u32 = 0;
        while x < dst_w
            invariant
                x <= dst_w,
                y < dst_h,
                0 < dst_w <= 0x10000,
                0 < dst_h <= 0x10000,
                src_w <= 0x100000,
                src_h <= 0x100000,
                stride <= 0x100000,
                src_y == y as int * src_h as int / dst_h as int,
                src_y <= 0x100000,
                rgb@.len() == 3 * (dst_w as int * y as int + x as int),
                forall|k: int|
                    0 <= k < rgb@.len() ==> rgb@[k] == scaled_rgb_at(
                        bgra@,
                        src_w as int,
                        src_h as int,
                        stride as int,
                        dst_w as int,
                        dst_h as int,
                        k,
                    ),
            decreases dst_w - x,
        {
            proof {
                assert(x as int * src_w as int <= 0x10000 * 0x100000 && x as int * src_w as int
                    / dst_w as int <= src_w as int) by (nonlinear_arith)
                    requires
                        0 <= x as int,
                        (x as int) < dst_w as int,
                        0 < dst_w as int,
                        0 <= src_w as int,
                        src_w as int <= 0x100000,
                        dst_w as int <= 0x10000,
                ;
            }
            let src_x = ((x as u64) * (src_w as u64) / (dst_w as u64)) as usize;
            proof {
                assert(src_x as int * 4 <= 0x400000 && src_y as int * stride as int
                    <= 0x10000000000) by (nonlinear_arith)
                    requires
                        src_x as int <= src_w as int,
                        src_w as int <= 0x100000,
                        src_y as int <= 0x100000,
                        stride as int <= 0x100000,
                ;
            }
            let off64 = (src_y as u64) * (stride as u64) + (src_x as u64) * 4;
            let ghost p = dst_w as int * y as int + x as int;
            proof {
                lemma_rgb_index(dst_w as int, y as int, x as int);
                assert(src_x as int == (p % dst_w as int) * src_w as int / dst_w as int) by {
                    assert(p % dst_w as int == x as int) by (nonlinear_arith)
                        requires
                            p == dst_w as int * y as int + x as int,
                            0 <= x as int,
                            (x as int) < dst_w as int,
                    ;
                }
                assert(src_y as int == (p / dst_w as int) * src_h as int / dst_h as int) by {
                    assert(p / dst_w as int == y as int) by (nonlinear_arith)
                        requires
                            p == dst_w as int * y as int + x as int,
                            0 <= x as int,
                            (x as int) < dst_w as int,
                            dst_w as int > 0,
                    ;
                }
            }
            if off64 + 2 < bgra.len() as u64 {
                let off = off64 as usize;
                rgb.push(bgra[off + 2]);
                rgb.push(bgra[off + 1]);
                rgb.push(bgra[off]);
            } else {
                rgb.push(0);
                rgb.push(0);
                rgb.push(0);
            }
            x = x + 1;
        }
        proof {
            assert(3 * (dst_w as int * y as int + dst_w as int) == 3 * dst_w as int * (y as int
                + 1)) by (nonlinear_arith);
        }
        y = y + 1;
    }
    rgb
}

/// The three byte positions of pixel `p` decompose as 3p, 3p+1, 3p+2.
proof fn lemma_rgb_index(dst_w: int, y: int, x: int)
    requires
        dst_w > 0,
        0 <= x < dst_w,
        0 <= y,
    ensures
        ({
            let p = dst_w * y + x;
            &&& (3 * p) / 3 == p && (3 * p) % 3 == 0
            &&& (3 * p + 1) / 3 == p && (3 * p + 1) % 3 == 1
            &&& (3 * p + 2) / 3 == p && (3 * p + 2) % 3 == 2
        }),
{
    let p = dst_w * y + x;
    assert(p >= 0) by (nonlinear_arith)
        requires
            dst_w > 0,
            0 <= x,
            0 <= y,
            p == dst_w * y + x,
    ;
    assert((3 * p) / 3 == p && (3 * p) % 3 == 0 && (3 * p + 1) / 3 == p && (3 * p + 1) % 3 == 1 && (
    3 * p + 2) / 3 == p && (3 * p + 2) % 3 == 2) by (nonlinear_arith)
        requires
            p >= 0,
    ;
}

} // verus!
