use vstd::prelude::*;

verus! {

/// The fields of a recursive lock word.
///
/// A word packs `core` in bits 0..2, `count` (locks taken) in bits 2..18 and
/// `recursion` (open recursion blocks) in bits 18..34.
#[derive(Debug, Clone, Copy, PartialEq, Eq, Structural)]
pub struct RecursiveUnit {
    /// Core that holds the lock (two bits).
    pub core: u64,
    /// Number of locks taken and not yet released (16 bits).
    pub count: u64,
    /// Number of recursion blocks opened by the holder (16 bits).
    pub recursion: u64,
}

/// Bits of a word that the packing uses.
pub const WORD_BITS_USED: u64 = 0x3_ffff_ffff;

/// The unit decoded from `x`.
pub open spec fn decode(x: u64) -> RecursiveUnit {
    RecursiveUnit {
        core: x % 4,
        count: (x / 4) % 0x10000,
        recursion: (x / 0x40000) % 0x10000,
    }
}

/// The word that packs `u` (fields wider than their slot spill into the next).
pub open spec fn encode(u: RecursiveUnit) -> u64 {
    u.core | (u.count << 2) | (u.recursion << 18)
}

impl RecursiveUnit {
    /// The unlocked unit.
    pub fn empty() -> (r: RecursiveUnit)
        ensures
            r == (RecursiveUnit { core: 0, count: 0, recursion: 0 }),
            encode(r) == 0,
    {
        proof {
            assert(0u64 | (0u64 << 2) | (0u64 << 18) == 0) by (bit_vector);
        }
        RecursiveUnit { core: 0, count: 0, recursion: 0 }
    }

    /// Every field fits its slot.
    pub open spec fn fits(self) -> bool {
        self.core < 4 && self.count < 0x10000 && self.recursion < 0x10000
    }

    /// Decodes a lock word.
    pub fn from_word(unit: u64) -> (r: RecursiveUnit)
        ensures
            r == decode(unit),
            r.fits(),
    {
        let r = RecursiveUnit {
            core: unit & 0b11,
            count: (unit >> 2) & 0xFF_FF,
            recursion: (unit >> 18) & 0xFF_FF,
        };
        proof {
            assert(unit & 0b11 == unit % 4) by (bit_vector);
            assert((unit >> 2) & 0xFF_FF == (unit / 4) % 0x10000) by (bit_vector);
            assert((unit >> 18) & 0xFF_FF == (unit / 0x40000) % 0x10000) by (bit_vector);
        }
        r
    }

    /// Encodes the unit as a lock word.
    pub fn to_word(self) -> (r: u64)
        ensures
            r == encode(self),
            self.fits() ==> r == self.core + self.count * 4 + self.recursion * 0x40000,
    {
        proof {
            lemma_encode_fits(self);
        }
        self.core | (self.count << 2) | (self.recursion << 18)
    }
}

impl From<u64> for RecursiveUnit {
    fn from(unit: u64) -> (r: RecursiveUnit) {
        RecursiveUnit::from_word(unit)
    }
}

impl vstd::std_specs::convert::FromSpecImpl<u64> for RecursiveUnit {
    open spec fn obeys_from_spec() -> bool {
        true
    }

    open spec fn from_spec(v: u64) -> RecursiveUnit {
        decode(v)
    }
}

impl From<RecursiveUnit> for u64 {
    fn from(unit: RecursiveUnit) -> (r: u64) {
        unit.to_word()
    }
}

impl vstd::std_specs::convert::FromSpecImpl<RecursiveUnit> for u64 {
    open spec fn obeys_from_spec() -> bool {
        true
    }

    open spec fn from_spec(v: RecursiveUnit) -> u64 {
        encode(v)
    }
}

/// Packing is exact for units whose fields fit their slots.
pub proof fn lemma_encode_fits(u: RecursiveUnit)
    ensures
        u.fits() ==> encode(u) == u.core + u.count * 4 + u.recursion * 0x40000,
{
    if u.fits() {
        let c = u.core;
        let n = u.count;
        let r = u.recursion;
        assert(c | (n << 2) | (r << 18) == c + n * 4 + r * 0x40000) by (bit_vector)
            requires
                c < 4,
                n < 0x10000,
                r < 0x10000,
        ;
    }
}

/// Decoding a packed unit gives the unit back when its fields fit.
pub proof fn law_decode_encode(u: RecursiveUnit)
    requires
        u.fits(),
    ensures
        decode(encode(u)) == u,
        encode(u) <= WORD_BITS_USED,
{
    lemma_encode_fits(u);
}

/// Packing a decoded word gives the word back when it only uses the packed bits.
pub proof fn law_encode_decode(x: u64)
    requires
        x <= WORD_BITS_USED,
    ensures
        encode(decode(x)) == x,
        decode(x).fits(),
{
    lemma_encode_fits(decode(x));
}

} // verus!
