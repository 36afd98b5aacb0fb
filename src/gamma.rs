use vstd::prelude::*;

verus! {

/// `255^5`.
pub const POW5_255: u128 = 1078203909375;

/// `255^9`.
pub const POW9_255: u128 = 4558916353692287109375;

pub open spec fn pow5(x: int) -> int {
    x * x * x * x * x
}

pub open spec fn pow7(x: int) -> int {
    x * x * x * x * x * x * x
}

pub open spec fn pow14(x: int) -> int {
    pow7(x) * pow7(x)
}

/// `r <= max * (v / 255)^2.8`, written without fractions or roots:
/// `r^5 * 255^14 <= max^5 * v^14`.
pub open spec fn level_fits(max: int, v: int, r: int) -> bool {
    pow5(r) * pow14(255) <= pow5(max) * pow14(v)
}

/// `r` is `max * (v / 255)^2.8` truncated to an integer.
pub open spec fn is_level(max: int, v: int, r: int) -> bool {
    0 <= r && level_fits(max, v, r) && !level_fits(max, v, r + 1)
}

/// The gamma-corrected brightness of byte value `v` on a channel whose
/// full brightness is `max`: `floor(max * (v / 255)^2.8)`.
pub open spec fn gamma_level(max: int, v: int) -> int {
    choose|r: int| is_level(max, v, r)
}

/// A colour channel of the light strip.
#[derive(Clone, Copy, Debug, PartialEq, Eq, Structural)]
pub enum Channel {
    Red,
    Green,
    Blue,
}

/// Full brightness of each channel after correction.
pub open spec fn channel_max(c: Channel) -> int {
    match c {
        Channel::Red => 255,
        Channel::Green => 240,
        Channel::Blue => 220,
    }
}

/// The corrected value of byte `v` on channel `c`.
pub open spec fn corrected(c: Channel, v: int) -> int {
    gamma_level(channel_max(c), v)
}

proof fn lemma_mul_le(a: int, b: int, c: int, d: int)
    requires
        0 <= a <= b,
        0 <= c <= d,
    ensures
        a * c <= b * d,
        0 <= a * c,
{
    assert(a * c <= b * c) by (nonlinear_arith)
        requires
            0 <= a <= b,
            0 <= c,
    ;
    assert(b * c <= b * d) by (nonlinear_arith)
        requires
            0 <= b,
            0 <= c <= d,
    ;
    assert(0 <= a * c) by (nonlinear_arith)
        requires
            0 <= a,
            0 <= c,
    ;
}

proof fn lemma_mul_lt(a: int, b: int, c: int, d: int)
    requires
        0 <= a < b,
        0 <= c <= d,
        0 < d,
    ensures
        a * c < b * d,
{
    lemma_mul_le(a, a, c, d);
    assert(a * d < b * d) by (nonlinear_arith)
        requires
            0 <= a < b,
            0 < d,
    ;
}

pub proof fn lemma_pow5_mono(a: int, b: int)
    requires
        0 <= a <= b,
    ensures
        0 <= pow5(a) <= pow5(b),
{
    lemma_mul_le(a, b, a, b);
    lemma_mul_le(a * a, b * b, a, b);
    lemma_mul_le(a * a * a, b * b * b, a, b);
    lemma_mul_le(a * a * a * a, b * b * b * b, a, b);
}

pub proof fn lemma_pow5_strict(a: int, b: int)
    requires
        0 <= a < b,
    ensures
        pow5(a) < pow5(b),
{
    lemma_mul_lt(a, b, a, b);
    lemma_pow5_mono(b, b);
    lemma_mul_le(a, a, a, a);
    lemma_mul_le(a * a, a * a, a, a);
    lemma_mul_le(a * a * a, a * a * a, a, a);
    lemma_mul_lt(a * a, b * b, a, b);
    lemma_mul_lt(a * a * a, b * b * b, a, b);
    lemma_mul_lt(a * a * a * a, b * b * b * b, a, b);
}

pub proof fn lemma_pow7_mono(a: int, b: int)
    requires
        0 <= a <= b,
    ensures
        0 <= pow7(a) <= pow7(b),
{
    lemma_mul_le(a, b, a, b);
    lemma_mul_le(a * a, b * b, a, b);
    lemma_mul_le(a * a * a, b * b * b, a, b);
    lemma_mul_le(a * a * a * a, b * b * b * b, a, b);
    lemma_mul_le(a * a * a * a * a, b * b * b * b * b, a, b);
    lemma_mul_le(a * a * a * a * a * a, b * b * b * b * b * b, a, b);
}

pub proof fn lemma_pow14_mono(a: int, b: int)
    requires
        0 <= a <= b,
    ensures
        0 <= pow14(a) <= pow14(b),
{
    lemma_pow7_mono(a, b);
    lemma_mul_le(pow7(a), pow7(b), pow7(a), pow7(b));
}

/// `255^14`, split as `255^5 * 255^9`.
proof fn lemma_pow14_255()
    ensures
        pow7(255) == 70110209207109375,
        pow14(255) == POW5_255 * POW9_255,
        pow14(255) > 0,
{
}

/// At most one value is the truncated level, so `gamma_level` is that value.
pub proof fn lemma_level_unique(max: int, v: int, r: int)
    requires
        is_level(max, v, r),
    ensures
        gamma_level(max, v) == r,
{
    let s = gamma_level(max, v);
    assert(is_level(max, v, s));
    lemma_pow14_255();
    if s < r {
        lemma_pow5_mono(s + 1, r);
        lemma_mul_le(pow5(s + 1), pow5(r), pow14(255), pow14(255));
    } else if r < s {
        lemma_pow5_mono(r + 1, s);
        lemma_mul_le(pow5(r + 1), pow5(s), pow14(255), pow14(255));
    }
}

/// Zero always fits.
proof fn lemma_zero_fits(max: int, v: int)
    requires
        0 <= max,
        0 <= v,
    ensures
        level_fits(max, v, 0),
{
    assert(pow5(0) == 0);
    lemma_pow5_mono(0, max);
    lemma_pow14_mono(0, v);
    lemma_mul_le(0, pow5(max), 0, pow14(v));
}

/// Decides `level_fits(max, v, r)` in 128-bit arithmetic.
///
/// With `w = v^14 = q * 255^5 + rm`, the inequality `r^5 * 255^14 <= max^5 * w`
/// becomes `255^5 * (r^5 * 255^9 - max^5 * q) <= max^5 * rm`, whose parts stay
/// below `2^128`.
fn fits(max: u128, v: u128, r: u128) -> (b: bool)
    requires
        max <= 255,
        v <= 255,
        r <= 255,
    ensures
        b == level_fits(max as int, v as int, r as int),
{
    proof {
        lemma_pow14_255();
        lemma_pow7_mono(v as int, 255);
        lemma_pow5_mono(r as int, 255);
        lemma_pow5_mono(max as int, 255);
        lemma_pow14_mono(v as int, 255);
        lemma_mul_le(r as int, 255, r as int, 255);
        lemma_mul_le(r * r, 65025, r as int, 255);
        lemma_mul_le(r * r * r, 16581375, r as int, 255);
        lemma_mul_le(max as int, 255, max as int, 255);
        lemma_mul_le(max * max, 65025, max as int, 255);
        lemma_mul_le(max * max * max, 16581375, max as int, 255);
        lemma_mul_le(v as int, 255, v as int, 255);
        lemma_mul_le(v * v, 65025, v as int, 255);
        lemma_mul_le(v * v * v, 16581375, v as int, 255);
        lemma_mul_le(v * v * v * v, 4228250625, v as int, 255);
        lemma_mul_le(v * v * v * v * v, 1078203909375, v as int, 255);
        lemma_mul_le(v * v * v * v * v * v, 274941996890625, v as int, 255);
    }
    let r5: u128 = r * r * r * r * r;
    let m5: u128 = max * max * max * max * max;
    let v7: u128 = v * v * v * v * v * v * v;
    proof {
        lemma_mul_le(v7 as int, pow7(255), v7 as int, pow7(255));
        lemma_mul_le(r5 as int, POW5_255 as int, POW9_255 as int, POW9_255 as int);
    }
    let w: u128 = v7 * v7;
    let a: u128 = r5 * POW9_255;
    let q: u128 = w / POW5_255;
    let rm: u128 = w % POW5_255;
    proof {
        assert(q <= POW9_255) by (nonlinear_arith)
            requires
                q == w / POW5_255,
                w <= POW5_255 * POW9_255,
        ;
        lemma_mul_le(m5 as int, POW5_255 as int, q as int, POW9_255 as int);
        // max^5 * w == 255^5 * (max^5 * q) + max^5 * rm
        assert(m5 * w == POW5_255 * (m5 * q) + m5 * rm) by (nonlinear_arith)
            requires
                w == q * POW5_255 + rm,
        ;
        assert(r5 * pow14(255) == POW5_255 * a);
        lemma_mul_le(m5 as int, m5 as int, rm as int, POW5_255 as int);
    }
    let b: u128 = m5 * q;
    if a <= b {
        proof {
            lemma_mul_le(POW5_255 as int, POW5_255 as int, a as int, b as int);
        }
        true
    } else {
        let d: u128 = a - b;
        if d > m5 {
            proof {
                assert(POW5_255 * d > POW5_255 * m5);
                lemma_mul_le(m5 as int, m5 as int, rm as int, POW5_255 as int);
                assert(m5 * POW5_255 == POW5_255 * m5) by (nonlinear_arith);
            }
            false
        } else {
            proof {
                lemma_mul_le(m5 as int, POW5_255 as int, rm as int, POW5_255 as int);
            }
            POW5_255 * d <= m5 * rm
        }
    }
}

/// `floor(max * (v / 255)^2.8)`, found by counting up from zero.
fn level(max: u8, v: u8) -> (r: u8)
    ensures
        r == gamma_level(max as int, v as int),
{
    let m: u128 = max as u128;
    let x: u128 = v as u128;
    let mut r: u128 = 0;
    proof {
        lemma_zero_fits(max as int, v as int);
    }
    while r < m && fits(m, x, r + 1)
        invariant
            m == max,
            x == v,
            r <= m,
            level_fits(m as int, x as int, r as int),
        decreases m - r,
    {
        r = r + 1;
    }
    proof {
        lemma_pow14_255();
        if r == m {
            // (max + 1)^5 * 255^14 > max^5 * 255^14 >= max^5 * v^14
            lemma_pow5_strict(m as int, m + 1);
            lemma_pow14_mono(v as int, 255);
            lemma_pow5_mono(0, m as int);
            lemma_mul_lt(pow5(m as int), pow5(m + 1), pow14(255), pow14(255));
            lemma_mul_le(pow5(m as int), pow5(m as int), pow14(v as int), pow14(255));
        }
        lemma_level_unique(m as int, x as int, r as int);
    }
    r as u8
}

/// Corrected values of one byte on each channel.
#[derive(Clone, Copy, Debug)]
struct Pixel {
    r: u8,
    g: u8,
    b: u8,
}

/// `p` holds the corrected values of byte `v`.
spec fn pixel_of(p: Pixel, v: int) -> bool {
    &&& p.r == corrected(Channel::Red, v)
    &&& p.g == corrected(Channel::Green, v)
    &&& p.b == corrected(Channel::Blue, v)
}

/// Per-channel gamma correction table: for each byte value, its corrected
/// value on the red, green and blue channels.
pub struct GammaMap {
    map: Vec<Pixel>,
}

impl GammaMap {
    /// The table holds, at each byte value, its corrected value on each channel.
    pub closed spec fn wf(&self) -> bool {
        &&& self.map@.len() == 256
        &&& forall|i: int| 0 <= i < 256 ==> #[trigger] pixel_of(self.map@[i], i)
    }

    /// Builds the table of `floor(max * (v / 255)^2.8)` for every byte `v`, with
    /// `max` 255 for red, 240 for green and 220 for blue.
    pub fn new() -> (g: Self)
        ensures
            g.wf(),
    {
        let mut map: Vec<Pixel> = Vec::new();
        let mut idx: u16 = 0;
        while idx < 256
            invariant
                idx <= 256,
                map@.len() == idx,
                forall|i: int| 0 <= i < idx ==> #[trigger] pixel_of(map@[i], i),
            decreases 256 - idx,
        {
            let v: u8 = idx as u8;
            let px = Pixel { r: level(255, v), g: level(240, v), b: level(220, v) };
            assert(pixel_of(px, idx as int));
            map.push(px);
            idx = idx + 1;
        }
        GammaMap { map }
    }

    /// Corrected value of `r` on the red channel.
    pub fn red(&self, r: u8) -> (c: u8)
        requires
            self.wf(),
        ensures
            c == corrected(Channel::Red, r as int),
    {
        let i = r as usize;
        proof {
            assert(pixel_of(self.map@[i as int], i as int));
        }
        self.map[i].r
    }

    /// Corrected value of `g` on the green channel.
    pub fn green(&self, g: u8) -> (c: u8)
        requires
            self.wf(),
        ensures
            c == corrected(Channel::Green, g as int),
    {
        let i = g as usize;
        proof {
            assert(pixel_of(self.map@[i as int], i as int));
        }
        self.map[i].g
    }

    /// Corrected value of `b` on the blue channel.
    pub fn blue(&self, b: u8) -> (c: u8)
        requires
            self.wf(),
        ensures
            c == corrected(Channel::Blue, b as int),
    {
        let i = b as usize;
        proof {
            assert(pixel_of(self.map@[i as int], i as int));
        }
        self.map[i].b
    }

    /// Corrected value of `value` on `channel`.
    pub fn correct(&self, channel: Channel, value: u8) -> (c: u8)
        requires
            self.wf(),
        ensures
            c == corrected(channel, value as int),
    {
        match channel {
            Channel::Red => self.red(value),
            Channel::Green => self.green(value),
            Channel::Blue => self.blue(value),
        }
    }

    /// Corrects the triple `(r, g, b)` at the start of `rgb` into the order the
    /// light strip reads: corrected red, corrected blue, corrected green.
    pub fn correct_rgb(&self, rgb: &mut [u8])
        requires
            self.wf(),
            old(rgb)@.len() >= 3,
        ensures
            final(rgb)@ == old(rgb)@.update(0, corrected(Channel::Red, old(rgb)@[0] as int) as u8)
                .update(1, corrected(Channel::Blue, old(rgb)@[2] as int) as u8)
                .update(2, corrected(Channel::Green, old(rgb)@[1] as int) as u8),
    {
        let r = rgb[0];
        let g = rgb[1];
        let b = rgb[2];
        rgb[0] = self.red(r);
        rgb[1] = self.blue(b);
        rgb[2] = self.green(g);
    }
}

impl Default for GammaMap {
    fn default() -> (g: Self)
        ensures
            g.wf(),
    {
        Self::new()
    }
}

/// Correction keeps order: on every channel, a brighter input never gives a
/// darker output.
pub proof fn lemma_corrected_monotonic(c: Channel, a: int, b: int)
    requires
        0 <= a <= b <= 255,
    ensures
        corrected(c, a) <= corrected(c, b),
{
    let max = channel_max(c);
    let ra = corrected(c, a);
    let rb = corrected(c, b);
    lemma_level_exists(max, a);
    lemma_level_exists(max, b);
    if ra > rb {
        lemma_pow14_mono(a, b);
        lemma_pow5_mono(0, max);
        lemma_pow5_mono(rb + 1, ra);
        lemma_pow14_255();
        lemma_mul_le(pow5(max), pow5(max), pow14(a), pow14(b));
        lemma_mul_le(pow5(rb + 1), pow5(ra), pow14(255), pow14(255));
    }
}

/// Zero stays zero, and full input gives the channel's full brightness.
pub proof fn lemma_corrected_ends(c: Channel)
    ensures
        corrected(c, 0) == 0,
        corrected(c, 255) == channel_max(c),
{
    let max = channel_max(c);
    lemma_pow14_255();
    lemma_pow5_mono(0, max);
    assert(pow5(1) == 1);
    assert(pow14(0) == 0);
    lemma_level_unique(max, 0, 0);
    lemma_pow5_strict(max, max + 1);
    lemma_mul_lt(pow5(max), pow5(max + 1), pow14(255), pow14(255));
    lemma_level_unique(max, 255, max);
}

/// Every byte has a truncated level on a channel of full brightness `max`.
proof fn lemma_level_exists(max: int, v: int)
    requires
        0 <= max <= 255,
        0 <= v <= 255,
    ensures
        is_level(max, v, gamma_level(max, v)),
        0 <= gamma_level(max, v) <= max,
{
    lemma_zero_fits(max, v);
    lemma_level_search(max, v, 0);
}

/// Counting up from a fitting `r`, a level is found at or below `max`.
proof fn lemma_level_search(max: int, v: int, r: int)
    requires
        0 <= max <= 255,
        0 <= v <= 255,
        0 <= r <= max,
        level_fits(max, v, r),
    ensures
        is_level(max, v, gamma_level(max, v)),
        0 <= gamma_level(max, v) <= max,
    decreases max - r,
{
    if r < max && level_fits(max, v, r + 1) {
        lemma_level_search(max, v, r + 1);
    } else {
        if r == max {
            lemma_pow14_255();
            lemma_pow5_strict(max, max + 1);
            lemma_pow14_mono(v, 255);
            lemma_pow5_mono(0, max);
            lemma_mul_lt(pow5(max), pow5(max + 1), pow14(255), pow14(255));
            lemma_mul_le(pow5(max), pow5(max), pow14(v), pow14(255));
        }
        lemma_level_unique(max, v, r);
    }
}

} // verus!
