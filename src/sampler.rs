use vstd::prelude::*;

use crate::error::GlowError;

verus! {

/// The screen area assigned to one light. A region with `x2 == x` and
/// `y2 == y` is a single point; otherwise it covers `[x, x2) x [y, y2)`.
#[derive(Clone, Copy, Debug, PartialEq, Eq, Structural)]
pub struct Region {
    pub x: u32,
    pub y: u32,
    pub x2: u32,
    pub y2: u32,
}

/// How a region's colour is taken from a frame.
#[derive(Clone, Copy, Debug, PartialEq, Eq, Structural)]
pub enum Algorithm {
    /// Read the single pixel at the region's corner `(x, y)`.
    Samples,
    /// Read the pixel of a point region; average the pixels of a rectangle.
    Average,
}

/// A captured frame: `width * height` pixels of four bytes each, in BGRA
/// order, row after row.
pub struct Frame {
    pub width: u32,
    pub height: u32,
    pub data: Vec<u8>,
}

pub open spec fn is_point(r: Region) -> bool {
    r.x2 == r.x && r.y2 == r.y
}

/// `r` lies inside a `width` by `height` frame and, unless it is a point,
/// covers at least one pixel.
pub open spec fn region_fits(r: Region, width: int, height: int) -> bool {
    &&& r.x < width
    &&& r.y < height
    &&& r.x2 <= width
    &&& r.y2 <= height
    &&& (is_point(r) || (r.x < r.x2 && r.y < r.y2))
}

/// The frame's buffer holds all of its pixels.
pub open spec fn frame_complete(width: int, height: int, data: Seq<u8>) -> bool {
    data.len() >= 4 * (width * height)
}

/// Byte offset of pixel `(x, y)`.
pub open spec fn pixel_offset(width: int, x: int, y: int) -> int {
    (y * width + x) * 4
}

/// Byte `k` (0 blue, 1 green, 2 red) of pixel `(x, y)`.
pub open spec fn channel_at(data: Seq<u8>, width: int, x: int, y: int, k: int) -> int {
    data[pixel_offset(width, x, y) + k] as int
}

/// Sum of channel `k` over the pixels `[x0, x1)` of row `y`.
pub open spec fn row_sum(data: Seq<u8>, width: int, y: int, x0: int, x1: int, k: int) -> int
    decreases x1 - x0,
{
    if x1 <= x0 {
        0
    } else {
        row_sum(data, width, y, x0, x1 - 1, k) + channel_at(data, width, x1 - 1, y, k)
    }
}

/// Sum of channel `k` over the rows `[y0, y1)`, pixels `[x0, x1)` of each.
pub open spec fn area_sum(
    data: Seq<u8>,
    width: int,
    x0: int,
    x1: int,
    y0: int,
    y1: int,
    k: int,
) -> int
    decreases y1 - y0,
{
    if y1 <= y0 {
        0
    } else {
        area_sum(data, width, x0, x1, y0, y1 - 1, k) + row_sum(data, width, y1 - 1, x0, x1, k)
    }
}

/// The (red, green, blue) colour of pixel `(x, y)`.
pub open spec fn point_rgb(data: Seq<u8>, width: int, x: int, y: int) -> (u8, u8, u8) {
    (
        channel_at(data, width, x, y, 2) as u8,
        channel_at(data, width, x, y, 1) as u8,
        channel_at(data, width, x, y, 0) as u8,
    )
}

/// The truncated mean (red, green, blue) colour of rectangle `r`.
pub open spec fn area_rgb(data: Seq<u8>, width: int, r: Region) -> (u8, u8, u8) {
    let n = (r.x2 - r.x) * (r.y2 - r.y);
    (
        (area_sum(data, width, r.x as int, r.x2 as int, r.y as int, r.y2 as int, 2) / n) as u8,
        (area_sum(data, width, r.x as int, r.x2 as int, r.y as int, r.y2 as int, 1) / n) as u8,
        (area_sum(data, width, r.x as int, r.x2 as int, r.y as int, r.y2 as int, 0) / n) as u8,
    )
}

/// The colour that `algorithm` takes for region `r`.
pub open spec fn region_rgb(data: Seq<u8>, width: int, r: Region, algorithm: Algorithm) -> (
    u8,
    u8,
    u8,
) {
    if algorithm == Algorithm::Average && !is_point(r) {
        area_rgb(data, width, r)
    } else {
        point_rgb(data, width, r.x as int, r.y as int)
    }
}

/// Byte `i` of the colour buffer: the red, green or blue of region `i / 3`.
pub open spec fn sampled_byte(
    data: Seq<u8>,
    width: int,
    regions: Seq<Region>,
    algorithm: Algorithm,
    i: int,
) -> u8 {
    let c = region_rgb(data, width, regions[i / 3], algorithm);
    if i % 3 == 0 {
        c.0
    } else if i % 3 == 1 {
        c.1
    } else {
        c.2
    }
}

/// The colour buffer for `regions`, one triple per region in region order.
pub open spec fn sampled(data: Seq<u8>, width: int, regions: Seq<Region>, algorithm: Algorithm) -> Seq<
    u8,
> {
    Seq::new(3 * regions.len(), |i: int| sampled_byte(data, width, regions, algorithm, i))
}

/// Sampling succeeds: the buffer is complete and every region fits the frame.
pub open spec fn sample_ok(width: int, height: int, data: Seq<u8>, regions: Seq<Region>) -> bool {
    &&& frame_complete(width, height, data)
    &&& forall|i: int| 0 <= i < regions.len() ==> region_fits(#[trigger] regions[i], width, height)
}

proof fn lemma_offset_in_frame(width: int, height: int, x: int, y: int)
    requires
        0 <= x < width,
        0 <= y < height,
    ensures
        0 <= pixel_offset(width, x, y),
        pixel_offset(width, x, y) + 4 <= 4 * (width * height),
{
    assert(y * width + x < width * height) by (nonlinear_arith)
        requires
            0 <= x < width,
            0 <= y < height,
    ;
    assert(0 <= y * width) by (nonlinear_arith)
        requires
            0 <= y,
            0 <= width,
    ;
}

impl Region {
    /// Whether this region lies inside a `width` by `height` frame.
    pub fn fits(&self, width: u32, height: u32) -> (b: bool)
        ensures
            b == region_fits(*self, width as int, height as int),
    {
        self.x < width && self.y < height && self.x2 <= width && self.y2 <= height && (
        (self.x2 == self.x && self.y2 == self.y) || (self.x < self.x2 && self.y < self.y2))
    }
}

impl Frame {
    /// Whether the buffer holds all `width * height` pixels.
    pub fn is_complete(&self) -> (b: bool)
        ensures
            b == frame_complete(self.width as int, self.height as int, self.data@),
    {
        proof {
            assert(self.width * self.height <= 0xFFFF_FFFF * 0xFFFF_FFFF) by (nonlinear_arith)
                requires
                    self.width <= 0xFFFF_FFFF,
                    self.height <= 0xFFFF_FFFF,
            ;
        }
        let pixels: u64 = (self.width as u64) * (self.height as u64);
        pixels <= (self.data.len() as u64) / 4
    }

    /// The (red, green, blue) colour of pixel `(x, y)`.
    fn point(&self, x: u32, y: u32) -> (c: (u8, u8, u8))
        requires
            frame_complete(self.width as int, self.height as int, self.data@),
            x < self.width,
            y < self.height,
        ensures
            c == point_rgb(self.data@, self.width as int, x as int, y as int),
    {
        let len = self.data.len();
        proof {
            lemma_offset_in_frame(self.width as int, self.height as int, x as int, y as int);
        }
        let idx: usize = ((y as usize) * (self.width as usize) + (x as usize)) * 4;
        (self.data[idx + 2], self.data[idx + 1], self.data[idx])
    }

    /// The truncated mean (red, green, blue) colour of rectangle `r`.
    fn average(&self, r: &Region) -> (c: (u8, u8, u8))
        requires
            frame_complete(self.width as int, self.height as int, self.data@),
            region_fits(*r, self.width as int, self.height as int),
            !is_point(*r),
        ensures
            c == area_rgb(self.data@, self.width as int, *r),
    {
        let ghost data = self.data@;
        let ghost w = self.width as int;
        let ghost cols = r.x2 - r.x;
        let mut sr: u128 = 0;
        let mut sg: u128 = 0;
        let mut sb: u128 = 0;
        let mut cnt: u128 = 0;
        let mut y: u32 = r.y;
        while y < r.y2
            invariant
                frame_complete(self.width as int, self.height as int, self.data@),
                region_fits(*r, self.width as int, self.height as int),
                data == self.data@,
                w == self.width,
                cols == r.x2 - r.x,
                r.y <= y <= r.y2,
                cnt == (y - r.y) * cols,
                sr == area_sum(data, w, r.x as int, r.x2 as int, r.y as int, y as int, 2),
                sg == area_sum(data, w, r.x as int, r.x2 as int, r.y as int, y as int, 1),
                sb == area_sum(data, w, r.x as int, r.x2 as int, r.y as int, y as int, 0),
                sr <= 255 * cnt,
                sg <= 255 * cnt,
                sb <= 255 * cnt,
            decreases r.y2 - y,
        {
            proof {
                assert((y - r.y) * cols <= 0x1_0000_0000 * 0x1_0000_0000) by (nonlinear_arith)
                    requires
                        0 <= y - r.y <= 0x1_0000_0000,
                        0 <= cols <= 0x1_0000_0000,
                ;
            }
            let mut x: u32 = r.x;
            while x < r.x2
                invariant
                    frame_complete(self.width as int, self.height as int, self.data@),
                    region_fits(*r, self.width as int, self.height as int),
                    data == self.data@,
                    w == self.width,
                    cols == r.x2 - r.x,
                    r.y <= y < r.y2,
                    r.x <= x <= r.x2,
                    (y - r.y) * cols <= 0x1_0000_0000 * 0x1_0000_0000,
                    cnt == (y - r.y) * cols + (x - r.x),
                    sr == area_sum(data, w, r.x as int, r.x2 as int, r.y as int, y as int, 2)
                        + row_sum(data, w, y as int, r.x as int, x as int, 2),
                    sg == area_sum(data, w, r.x as int, r.x2 as int, r.y as int, y as int, 1)
                        + row_sum(data, w, y as int, r.x as int, x as int, 1),
                    sb == area_sum(data, w, r.x as int, r.x2 as int, r.y as int, y as int, 0)
                        + row_sum(data, w, y as int, r.x as int, x as int, 0),
                    sr <= 255 * cnt,
                    sg <= 255 * cnt,
                    sb <= 255 * cnt,
                decreases r.x2 - x,
            {
                let c = self.point(x, y);
                sr = sr + c.0 as u128;
                sg = sg + c.1 as u128;
                sb = sb + c.2 as u128;
                cnt = cnt + 1;
                x = x + 1;
            }
            proof {
                assert((y - r.y) * cols + cols == (y + 1 - r.y) * cols) by (nonlinear_arith);
            }
            y = y + 1;
        }
        proof {
            assert((r.x2 - r.x) * (r.y2 - r.y) <= 0xFFFF_FFFF * 0xFFFF_FFFF) by (nonlinear_arith)
                requires
                    0 <= r.x2 - r.x <= 0xFFFF_FFFF,
                    0 <= r.y2 - r.y <= 0xFFFF_FFFF,
            ;
        }
        let n: u64 = ((r.x2 - r.x) as u64) * ((r.y2 - r.y) as u64);
        proof {
            assert(cnt == n) by (nonlinear_arith)
                requires
                    cnt == (y - r.y) * cols,
                    y == r.y2,
                    cols == r.x2 - r.x,
                    n == (r.x2 - r.x) * (r.y2 - r.y),
            ;
            assert(n > 0) by (nonlinear_arith)
                requires
                    n == (r.x2 - r.x) * (r.y2 - r.y),
                    r.x < r.x2,
                    r.y < r.y2,
            ;
            assert(sr as int / n as int <= 255) by (nonlinear_arith)
                requires
                    sr <= 255 * n,
                    n > 0,
            ;
            assert(sg as int / n as int <= 255) by (nonlinear_arith)
                requires
                    sg <= 255 * n,
                    n > 0,
            ;
            assert(sb as int / n as int <= 255) by (nonlinear_arith)
                requires
                    sb <= 255 * n,
                    n > 0,
            ;
        }
        let nn = n as u128;
        ((sr / nn) as u8, (sg / nn) as u8, (sb / nn) as u8)
    }
}

/// Takes one colour per region from `frame`, in region order.
///
/// Fails with `OutOfBounds` when the buffer is shorter than the frame or any
/// region does not fit it.
pub fn sample(frame: &Frame, regions: &[Region], algorithm: Algorithm) -> (r: Result<
    Vec<u8>,
    GlowError,
>)
    ensures
        sample_ok(frame.width as int, frame.height as int, frame.data@, regions@) ==> r is Ok
            && r->Ok_0@ == sampled(frame.data@, frame.width as int, regions@, algorithm),
        !sample_ok(frame.width as int, frame.height as int, frame.data@, regions@) ==> r == Err::<
            Vec<u8>,
            GlowError,
        >(GlowError::OutOfBounds),
{
    if !frame.is_complete() {
        return Err(GlowError::OutOfBounds);
    }
    let mut out: Vec<u8> = Vec::new();
    let mut i: usize = 0;
    while i < regions.len()
        invariant
            frame_complete(frame.width as int, frame.height as int, frame.data@),
            i <= regions@.len(),
            forall|j: int| 0 <= j < i ==> region_fits(#[trigger] regions@[j], frame.width as int, frame.height as int),
            out@.len() == 3 * i,
            forall|j: int|
                0 <= j < 3 * i ==> out@[j] == #[trigger] sampled_byte(
                    frame.data@,
                    frame.width as int,
                    regions@,
                    algorithm,
                    j,
                ),
        decreases regions@.len() - i,
    {
        let reg = regions[i];
        if !reg.fits(frame.width, frame.height) {
            return Err(GlowError::OutOfBounds);
        }
        let point = reg.x2 == reg.x && reg.y2 == reg.y;
        let c = match algorithm {
            Algorithm::Average => {
                if point {
                    frame.point(reg.x, reg.y)
                } else {
                    frame.average(&reg)
                }
            },
            Algorithm::Samples => frame.point(reg.x, reg.y),
        };
        proof {
            assert(c == region_rgb(frame.data@, frame.width as int, reg, algorithm));
        }
        out.push(c.0);
        out.push(c.1);
        out.push(c.2);
        proof {
            assert forall|j: int| 0 <= j < 3 * (i + 1) implies out@[j] == #[trigger] sampled_byte(
                frame.data@,
                frame.width as int,
                regions@,
                algorithm,
                j,
            ) by {
                if j >= 3 * i {
                    assert(j / 3 == i);
                }
            }
        }
        i = i + 1;
    }
    assert(out@ =~= sampled(frame.data@, frame.width as int, regions@, algorithm));
    Ok(out)
}

} // verus!
