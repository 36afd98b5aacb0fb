use vstd::prelude::*;

verus! {

/// A source of colour buffers: one RGB triple per light, in strip order.
pub trait Mode {
    /// Number of lights this source produces colours for.
    spec fn leds(&self) -> nat;

    /// The colours the next call of `render` returns.
    spec fn frame(&self) -> Seq<u8>;

    /// `next` is this source one frame later.
    spec fn steps_to(&self, next: &Self) -> bool;

    /// "Render" a new frame for the light strip.
    fn render(&mut self) -> (r: Vec<u8>)
        ensures
            r@ == old(self).frame(),
            r@.len() == 3 * old(self).leds(),
            old(self).steps_to(&*final(self)),
            final(self).leds() == old(self).leds(),
    ;
}

/// `colors` started at byte `start` and wrapped round to its beginning.
pub open spec fn rotated(colors: Seq<u8>, start: int) -> Seq<u8> {
    colors.subrange(start, colors.len() as int) + colors.subrange(0, start)
}

/// The light a rotating gradient starts at on its next frame, for `n` lights.
pub open spec fn next_offset(offset: int, n: int) -> int {
    if offset + 1 >= n {
        0
    } else {
        offset + 1
    }
}

/// The starting light after `k` frames from `offset`.
pub open spec fn offset_after(offset: int, n: int, k: nat) -> int
    decreases k,
{
    if k == 0 {
        offset
    } else {
        next_offset(offset_after(offset, n, (k - 1) as nat), n)
    }
}

/// Copies `colors` from byte `start` to its end, then from its beginning up to
/// `start`.
fn copy_rotated(colors: &Vec<u8>, start: usize) -> (r: Vec<u8>)
    requires
        start <= colors@.len(),
    ensures
        r@ == rotated(colors@, start as int),
{
    let n = colors.len();
    let mut out: Vec<u8> = Vec::new();
    let mut i: usize = start;
    while i < n
        invariant
            start <= i <= n,
            n == colors@.len(),
            out@ == colors@.subrange(start as int, i as int),
        decreases n - i,
    {
        out.push(colors[i]);
        assert(out@ =~= colors@.subrange(start as int, i + 1));
        i = i + 1;
    }
    let mut j: usize = 0;
    while j < start
        invariant
            j <= start,
            start <= n,
            n == colors@.len(),
            out@ == colors@.subrange(start as int, n as int) + colors@.subrange(0, j as int),
        decreases start - j,
    {
        out.push(colors[j]);
        assert(out@ =~= colors@.subrange(start as int, n as int) + colors@.subrange(0, j + 1));
        j = j + 1;
    }
    out
}

/// The same fixed colours on every frame.
pub struct StaticGradient {
    colors: Vec<u8>,
}

impl StaticGradient {
    #[verifier::type_invariant]
    spec fn inv(&self) -> bool {
        self.colors@.len() % 3 == 0
    }

    /// The colours shown, one triple per light.
    pub closed spec fn colors(&self) -> Seq<u8> {
        self.colors@
    }

    /// A source showing `colors`; `None` unless it is whole triples.
    pub fn new(colors: Vec<u8>) -> (r: Option<Self>)
        ensures
            r is Some <==> colors@.len() % 3 == 0,
            r matches Some(g) ==> g.colors() == colors@,
    {
        if colors.len() % 3 == 0 {
            Some(StaticGradient { colors })
        } else {
            None
        }
    }

    /// The fixed colours.
    pub fn next_colors(&self) -> (r: Vec<u8>)
        ensures
            r@ == self.colors(),
    {
        vstd::slice::slice_to_vec(self.colors.as_slice())
    }
}

impl Mode for StaticGradient {
    closed spec fn leds(&self) -> nat {
        self.colors@.len() / 3
    }

    /// The fixed colours.
    open spec fn frame(&self) -> Seq<u8> {
        self.colors()
    }

    /// Nothing changes from frame to frame.
    open spec fn steps_to(&self, next: &Self) -> bool {
        next.colors() == self.colors()
    }

    fn render(&mut self) -> (r: Vec<u8>) {
        proof {
            use_type_invariant(&*self);
        }
        self.next_colors()
    }
}

/// A fixed palette that travels along the strip: each frame starts one light
/// further on, wrapping round.
pub struct RotatingGradient {
    colors: Vec<u8>,
    offset: usize,
}

impl RotatingGradient {
    #[verifier::type_invariant]
    spec fn inv(&self) -> bool {
        &&& self.colors@.len() % 3 == 0
        &&& (self.offset == 0 || self.offset < self.colors@.len() / 3)
    }

    /// The palette, one triple per light.
    pub closed spec fn colors(&self) -> Seq<u8> {
        self.colors@
    }

    /// The light the next frame starts at.
    pub closed spec fn offset(&self) -> int {
        self.offset as int
    }

    /// A source rotating `colors`, starting at its first light; `None` unless
    /// it is whole triples.
    pub fn new(colors: Vec<u8>) -> (r: Option<Self>)
        ensures
            r is Some <==> colors@.len() % 3 == 0,
            r matches Some(g) ==> g.colors() == colors@ && g.offset() == 0,
    {
        if colors.len() % 3 == 0 {
            Some(RotatingGradient { colors, offset: 0 })
        } else {
            None
        }
    }

    /// The palette rotated to start at the current light; the next frame
    /// starts one light further on.
    pub fn next_colors(&mut self) -> (r: Vec<u8>)
        ensures
            r@ == rotated(old(self).colors(), 3 * old(self).offset()),
            final(self).colors() == old(self).colors(),
            final(self).offset() == next_offset(
                old(self).offset(),
                (old(self).colors().len() / 3) as int,
            ),
    {
        proof {
            use_type_invariant(&*self);
        }
        let len = self.colors.len();
        let r = copy_rotated(&self.colors, 3 * self.offset);
        let n = len / 3;
        if self.offset + 1 >= n {
            self.offset = 0;
        } else {
            self.offset = self.offset + 1;
        }
        r
    }
}

impl Mode for RotatingGradient {
    closed spec fn leds(&self) -> nat {
        self.colors@.len() / 3
    }

    /// The palette rotated to start at the current light.
    open spec fn frame(&self) -> Seq<u8> {
        rotated(self.colors(), 3 * self.offset())
    }

    /// The palette stays; the starting light moves one on, wrapping round.
    open spec fn steps_to(&self, next: &Self) -> bool {
        &&& next.colors() == self.colors()
        &&& next.offset() == next_offset(self.offset(), (self.colors().len() / 3) as int)
    }

    fn render(&mut self) -> (r: Vec<u8>) {
        proof {
            use_type_invariant(&*self);
        }
        self.next_colors()
    }
}

proof fn lemma_offset_after(offset: int, n: int, k: nat)
    requires
        0 <= offset < n,
        k <= n,
    ensures
        offset_after(offset, n, k) == if offset + k < n {
            offset + k
        } else {
            offset + k - n
        },
    decreases k,
{
    if k > 0 {
        lemma_offset_after(offset, n, (k - 1) as nat);
    }
}

/// After as many frames as there are lights, a rotating gradient is back at
/// the light it started from, and shows its starting frame again.
pub proof fn lemma_full_cycle(colors: Seq<u8>, offset: int)
    requires
        colors.len() % 3 == 0,
        0 <= offset < colors.len() / 3,
    ensures
        offset_after(offset, (colors.len() / 3) as int, (colors.len() / 3) as nat) == offset,
        rotated(colors, 3 * offset_after(offset, (colors.len() / 3) as int, (colors.len() / 3) as nat))
            == rotated(colors, 3 * offset),
{
    lemma_offset_after(offset, (colors.len() / 3) as int, (colors.len() / 3) as nat);
}

} // verus!
