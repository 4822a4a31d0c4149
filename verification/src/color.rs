//! Packed 24-bit RGB colours and the palette that maps escape times to them.

use vstd::prelude::*;

verus! {

/// The largest packed colour: all three channels at 255.
pub const MAX_PACKED: u32 = 0xFF_FFFF;

/// One colour as three 8-bit channels.
#[derive(Clone, Copy, Debug, PartialEq, Eq, Structural)]
pub struct Rgb {
    pub red: u8,
    pub green: u8,
    pub blue: u8,
}

/// The colour whose channels are the three low bytes of `p`: red from bits
/// 16..24, green from bits 8..16, blue from bits 0..8. Higher bits are ignored.
pub open spec fn unpacked(p: int) -> Rgb {
    Rgb {
        red: (p / 0x1_0000 % 0x100) as u8,
        green: (p / 0x100 % 0x100) as u8,
        blue: (p % 0x100) as u8,
    }
}

impl Rgb {
    /// The packed form of this colour as a mathematical integer: red in bits
    /// 16..24, green in bits 8..16, blue in bits 0..8.
    pub open spec fn packed(self) -> int {
        self.red * 0x1_0000 + self.green * 0x100 + self.blue
    }

    /// Packs the three channels into one integer, `(R << 16) | (G << 8) | B`.
    pub fn pack(self) -> (p: u32)
        ensures
            p == self.packed(),
            p == (self.red as u32) << 16 | (self.green as u32) << 8 | (self.blue as u32),
            p <= MAX_PACKED,
    {
        let r: u32 = self.red as u32;
        let g: u32 = self.green as u32;
        let b: u32 = self.blue as u32;
        assert((r << 16 | g << 8 | b) == r * 0x1_0000 + g * 0x100 + b) by (bit_vector)
            requires
                r < 0x100,
                g < 0x100,
                b < 0x100,
        ;
        (r << 16) | (g << 8) | b
    }

    /// Splits a packed colour into its channels. Bits 24 and above play no part.
    pub fn unpack(p: u32) -> (c: Rgb)
        ensures
            c == unpacked(p as int),
            p <= MAX_PACKED ==> c.packed() == p,
    {
        let r: u32 = (p >> 16) & 0xFF;
        let g: u32 = (p >> 8) & 0xFF;
        let b: u32 = p & 0xFF;
        assert(r == p / 0x1_0000 % 0x100 && g == p / 0x100 % 0x100 && b == p % 0x100) by (bit_vector)
            requires
                r == (p >> 16) & 0xFF,
                g == (p >> 8) & 0xFF,
                b == p & 0xFF,
        ;
        proof {
            if p <= MAX_PACKED {
                lemma_unpack_pack(p as int);
            }
        }
        Rgb { red: r as u8, green: g as u8, blue: b as u8 }
    }
}

/// Packing a colour and unpacking the result gives the colour back, channel
/// for channel.
pub proof fn lemma_pack_unpack(c: Rgb)
    ensures
        0 <= c.packed() <= MAX_PACKED,
        unpacked(c.packed()) == c,
{
    let (r, g, b) = (c.red as int, c.green as int, c.blue as int);
    let p = c.packed();
    assert(p / 0x1_0000 == r && p / 0x100 == r * 0x100 + g && p % 0x100 == b
        && (r * 0x100 + g) % 0x100 == g && r % 0x100 == r);
}

/// Unpacking a 24-bit value and packing the channels gives the value back.
pub proof fn lemma_unpack_pack(p: int)
    requires
        0 <= p <= MAX_PACKED,
    ensures
        unpacked(p).packed() == p,
{
    let hi = p / 0x1_0000;
    let mid = p / 0x100;
    assert(0 <= hi < 0x100 && hi % 0x100 == hi);
    assert(mid / 0x100 == hi);
    assert(mid == hi * 0x100 + mid % 0x100);
    assert(p == mid * 0x100 + p % 0x100);
}

/// The packed forms of `colors`, in the same order.
pub open spec fn packed_colors(colors: Seq<Rgb>) -> Seq<u32> {
    Seq::new(colors.len(), |i: int| colors[i].packed() as u32)
}

/// An ordered sequence of packed colours. Its length is the iteration bound:
/// entry `t - 1` is the colour of escape time `t`, for `t` from 1 to the bound.
#[derive(Debug)]
pub struct Palette {
    colors: Vec<u32>,
}

impl View for Palette {
    type V = Seq<u32>;

    closed spec fn view(&self) -> Seq<u32> {
        self.colors@
    }
}

impl Palette {
    /// Every entry is a 24-bit value.
    pub open spec fn wf(&self) -> bool {
        forall|i: int| 0 <= i < self@.len() ==> #[trigger] self@[i] <= MAX_PACKED
    }

    /// Builds the palette that holds the packed form of each colour of
    /// `colors`, in order.
    pub fn from_colors(colors: &Vec<Rgb>) -> (palette: Palette)
        ensures
            palette@ == packed_colors(colors@),
            palette@.len() == colors@.len(),
            palette.wf(),
    {
        let mut packed: Vec<u32> = Vec::with_capacity(colors.len());
        for i in 0..colors.len()
            invariant
                packed@.len() == i,
                forall|k: int| 0 <= k < i ==> #[trigger] packed@[k] == colors@[k].packed(),
        {
            packed.push(colors[i].pack());
        }
        proof {
            assert(packed@ =~= packed_colors(colors@));
            assert forall|k: int| 0 <= k < packed@.len() implies #[trigger] packed@[k]
                <= MAX_PACKED by {
                lemma_pack_unpack(colors@[k]);
            }
        }
        Palette { colors: packed }
    }

    /// The iteration bound that this palette serves: the number of its entries.
    pub fn bound(&self) -> (n: usize)
        ensures
            n == self@.len(),
    {
        self.colors.len()
    }

    /// The colour of a pixel whose orbit took `escape_time` iterations.
    pub fn color_for(&self, escape_time: usize) -> (color: u32)
        requires
            1 <= escape_time <= self@.len(),
        ensures
            color == self@[escape_time - 1],
            self.wf() ==> color <= MAX_PACKED,
    {
        self.colors[escape_time - 1]
    }
}

} // verus!
