//! 32-bit words as four little-endian byte limbs.
//!
//! Each limb lives in its own trace column so that the external byte-lookup
//! table can range-check it; a word is convertible losslessly to and from a
//! native 32-bit integer.

use vstd::prelude::*;
use crate::field::Fp;

verus! {

/// Little-endian byte `i` of the 32-bit value `x`.
pub open spec fn byte_of(x: u32, i: int) -> int
    recommends
        0 <= i < 4,
{
    if i == 0 {
        (x as int) % 256
    } else if i == 1 {
        ((x as int) / 256) % 256
    } else if i == 2 {
        ((x as int) / 65536) % 256
    } else {
        ((x as int) / 16777216) % 256
    }
}

/// Recomposing the four little-endian bytes of `x` gives back `x`.
pub proof fn lemma_byte_recompose(x: u32)
    ensures
        byte_of(x, 0) + 256 * byte_of(x, 1) + 65536 * byte_of(x, 2) + 16777216 * byte_of(x, 3)
            == x as int,
{
    assert((x as int) % 256 + 256 * (((x as int) / 256) % 256) + 65536 * (((x as int) / 65536)
        % 256) + 16777216 * (((x as int) / 16777216) % 256) == x as int) by (bit_vector);
}

/// A 32-bit word over the scalar field: four little-endian byte limbs.
#[derive(Clone, Copy, Debug)]
pub struct Word {
    /// The limbs, least significant first.
    pub limbs: [Fp; 4],
}

impl Word {
    /// The decoded value of limb `i`.
    pub open spec fn limb(self, i: int) -> int
        recommends
            0 <= i < 4,
    {
        self.limbs@[i].val()
    }

    /// Every limb decodes to a byte value. Constructors of this crate
    /// establish this; for columns coming from elsewhere it is exactly what
    /// the external byte-range lookup enforces.
    pub open spec fn wf(self) -> bool {
        forall|i: int| 0 <= i < 4 ==> 0 <= #[trigger] self.limb(i) < 256
    }

    /// The 32-bit value this word encodes.
    pub open spec fn value(self) -> int {
        self.limb(0) + 256 * self.limb(1) + 65536 * self.limb(2) + 16777216 * self.limb(3)
    }

    /// Decomposes `x` into its four little-endian byte limbs.
    pub fn from_u32(x: u32) -> (w: Word)
        ensures
            w.wf(),
            forall|i: int| 0 <= i < 4 ==> #[trigger] w.limb(i) == byte_of(x, i),
            w.value() == x as int,
    {
        let l0: u32 = x % 256;
        let l1: u32 = (x / 256) % 256;
        let l2: u32 = (x / 65536) % 256;
        let l3: u32 = (x / 16777216) % 256;
        let w = Word {
            limbs: [Fp::from_u32(l0), Fp::from_u32(l1), Fp::from_u32(l2), Fp::from_u32(l3)],
        };
        proof {
            lemma_byte_recompose(x);
        }
        w
    }

    /// Recomposes the limbs into the 32-bit value they encode.
    pub fn to_u32(self) -> (r: u32)
        requires
            self.wf(),
        ensures
            r as int == self.value(),
    {
        proof {
            assert(self.limb(0) < 256);
            assert(self.limb(1) < 256);
            assert(self.limb(2) < 256);
            assert(self.limb(3) < 256);
        }
        let l0: u64 = self.limbs[0].as_canonical_u64();
        let l1: u64 = self.limbs[1].as_canonical_u64();
        let l2: u64 = self.limbs[2].as_canonical_u64();
        let l3: u64 = self.limbs[3].as_canonical_u64();
        let v: u64 = l0 + 256 * l1 + 65536 * l2 + 16777216 * l3;
        v as u32
    }
}

} // verus!
