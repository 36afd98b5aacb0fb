use vstd::prelude::*;

use crate::error::GlowError;
use crate::gamma::{corrected, Channel, GammaMap};

verus! {

/// The six header bytes for `leds` lights: "Ada", the light count minus one
/// in big-endian, and a checksum of those two bytes.
pub open spec fn header_spec(leds: int) -> Seq<u8> {
    let hi = ((leds - 1) / 256) as u8;
    let lo = ((leds - 1) % 256) as u8;
    seq![65u8, 100u8, 97u8, hi, lo, hi ^ lo ^ 0x55u8]
}

/// Byte `i` of the payload for colour buffer `colors`: each `(r, g, b)` triple
/// goes out as corrected red, corrected blue, corrected green.
pub open spec fn wire_byte(colors: Seq<u8>, i: int) -> u8 {
    let t = i - i % 3;
    if i % 3 == 0 {
        corrected(Channel::Red, colors[t] as int) as u8
    } else if i % 3 == 1 {
        corrected(Channel::Blue, colors[t + 2] as int) as u8
    } else {
        corrected(Channel::Green, colors[t + 1] as int) as u8
    }
}

/// The gamma-corrected, reordered payload for `colors`.
pub open spec fn corrected_payload(colors: Seq<u8>) -> Seq<u8> {
    Seq::new(colors.len(), |i: int| wire_byte(colors, i))
}

/// The packet for `leds` lights showing `colors`.
pub open spec fn packet_bytes(leds: int, colors: Seq<u8>) -> Seq<u8> {
    header_spec(leds) + corrected_payload(colors)
}

/// A packet of data to send to the serial port.
pub struct Packet(Vec<u8>);

impl View for Packet {
    type V = Seq<u8>;

    closed spec fn view(&self) -> Seq<u8> {
        self.0@
    }
}

impl Packet {
    /// The bytes of the packet.
    pub fn slice(&self) -> (s: &[u8])
        ensures
            s@ == self@,
    {
        self.0.as_slice()
    }
}

/// The framing side of an Adalight light strip: header and gamma table for a
/// fixed number of lights.
pub struct Adalight {
    leds: u16,
    header: [u8; 6],
    gamma: GammaMap,
}

impl Adalight {
    pub closed spec fn wf(&self) -> bool {
        &&& self.leds >= 1
        &&& self.header@ == header_spec(self.leds as int)
        &&& self.gamma.wf()
    }

    /// The number of lights the packets are framed for; at least one in a
    /// well-formed framing (see `lemma_wf_leds`).
    pub closed spec fn spec_leds(&self) -> u16 {
        self.leds
    }

    /// Framing for a strip of `leds` lights.
    pub fn new(leds: u16) -> (a: Self)
        requires
            leds >= 1,
        ensures
            a.wf(),
            a.spec_leds() == leds,
    {
        let header = Self::get_header(leds);
        let gamma = GammaMap::new();
        Adalight { leds, header, gamma }
    }

    /// The number of lights the packets are framed for.
    pub fn leds(&self) -> (n: u16)
        requires
            self.wf(),
        ensures
            n == self.spec_leds(),
            n >= 1,
    {
        self.leds
    }

    /// The packet header for `leds` lights.
    pub fn get_header(leds: u16) -> (h: [u8; 6])
        requires
            leds >= 1,
        ensures
            h@ == header_spec(leds as int),
    {
        let num_leds: u16 = leds - 1;
        let hi = ((num_leds & 0xFF00) >> 8) as u8;
        let lo = (num_leds & 0xFF) as u8;
        proof {
            assert((num_leds & 0xFF00) >> 8 == num_leds / 256) by (bit_vector);
            assert(num_leds & 0xFF == num_leds % 256) by (bit_vector);
        }
        let checksum = hi ^ lo ^ 0x55;
        // "Ada"
        let h: [u8; 6] = [0x41, 0x64, 0x61, hi, lo, checksum];
        assert(h@ =~= header_spec(leds as int));
        h
    }

    /// Corrects every triple of `payload` in place into wire order.
    fn gamma_correct(&self, payload: &mut [u8])
        requires
            self.wf(),
            old(payload)@.len() % 3 == 0,
        ensures
            final(payload)@ == corrected_payload(old(payload)@),
    {
        let ghost orig = payload@;
        let n = payload.len();
        let mut i: usize = 0;
        while i < n
            invariant
                self.wf(),
                n == payload@.len(),
                n == orig.len(),
                n % 3 == 0,
                i % 3 == 0,
                i <= n,
                forall|j: int| 0 <= j < i ==> payload@[j] == #[trigger] wire_byte(orig, j),
                forall|j: int| i <= j < n ==> #[trigger] payload@[j] == orig[j],
            decreases n - i,
        {
            let r = payload[i];
            let g = payload[i + 1];
            let b = payload[i + 2];
            payload[i] = self.gamma.red(r);
            payload[i + 1] = self.gamma.blue(b);
            payload[i + 2] = self.gamma.green(g);
            proof {
                assert(wire_byte(orig, i as int) == corrected(Channel::Red, r as int) as u8);
                assert(wire_byte(orig, i + 1) == corrected(Channel::Blue, b as int) as u8);
                assert(wire_byte(orig, i + 2) == corrected(Channel::Green, g as int) as u8);
            }
            i = i + 3;
        }
        assert(payload@ =~= corrected_payload(orig));
    }

    /// The packet for `colors`: the header, then each triple gamma-corrected
    /// in wire order. `colors` itself is only read.
    ///
    /// Fails with `SizeMismatch` unless `colors` holds exactly one triple per
    /// light.
    pub fn pack(&self, colors: &[u8]) -> (r: Result<Packet, GlowError>)
        requires
            self.wf(),
        ensures
            colors@.len() != 3 * self.spec_leds() ==> r == Err::<Packet, GlowError>(
                GlowError::SizeMismatch,
            ),
            colors@.len() == 3 * self.spec_leds() ==> r is Ok && r->Ok_0@ == packet_bytes(
                self.spec_leds() as int,
                colors@,
            ),
    {
        if colors.len() != 3 * (self.leds as usize) {
            return Err(GlowError::SizeMismatch);
        }
        let mut buf = vstd::slice::slice_to_vec(colors);
        let payload = buf.as_mut_slice();
        self.gamma_correct(payload);
        let mut data: Vec<u8> = Vec::new();
        let mut i: usize = 0;
        while i < 6
            invariant
                i <= 6,
                data@ == self.header@.subrange(0, i as int),
            decreases 6 - i,
        {
            data.push(self.header[i]);
            assert(data@ =~= self.header@.subrange(0, i + 1));
            i = i + 1;
        }
        let n = payload.len();
        let mut j: usize = 0;
        while j < n
            invariant
                j <= n,
                n == payload@.len(),
                data@ == self.header@ + payload@.subrange(0, j as int),
            decreases n - j,
        {
            data.push(payload[j]);
            assert(data@ =~= self.header@ + payload@.subrange(0, j + 1));
            j = j + 1;
        }
        assert(payload@.subrange(0, n as int) =~= payload@);
        Ok(Packet(data))
    }
}

/// Well-formed framing is for at least one light.
pub proof fn lemma_wf_leds(a: Adalight)
    requires
        a.wf(),
    ensures
        a.spec_leds() >= 1,
{
}

/// The packet that shows `colors` on a strip of `leds` lights.
///
/// Fails with `SizeMismatch` unless `colors` holds exactly one triple per light.
pub fn encode(leds: u16, colors: &[u8]) -> (r: Result<Packet, GlowError>)
    requires
        leds >= 1,
    ensures
        colors@.len() != 3 * leds ==> r == Err::<Packet, GlowError>(GlowError::SizeMismatch),
        colors@.len() == 3 * leds ==> r is Ok && r->Ok_0@ == packet_bytes(leds as int, colors@),
{
    let ada = Adalight::new(leds);
    ada.pack(colors)
}

/// The header checks itself and carries the light count; the packet is the
/// header followed by three bytes per light.
pub proof fn lemma_packet_frame(leds: int, colors: Seq<u8>)
    requires
        1 <= leds <= 65535,
        colors.len() == 3 * leds,
    ensures
        packet_bytes(leds, colors).len() == 6 + 3 * leds,
        packet_bytes(leds, colors).subrange(0, 3) == seq![65u8, 100u8, 97u8],
        packet_bytes(leds, colors)[5] == packet_bytes(leds, colors)[3] ^ packet_bytes(
            leds,
            colors,
        )[4] ^ 0x55u8,
        packet_bytes(leds, colors)[3] * 256 + packet_bytes(leds, colors)[4] == leds - 1,
{
    let p = packet_bytes(leds, colors);
    assert(p[3] == header_spec(leds)[3]);
    assert(p[4] == header_spec(leds)[4]);
    assert(p[5] == header_spec(leds)[5]);
    assert(p.subrange(0, 3) =~= seq![65u8, 100u8, 97u8]);
}

} // verus!
