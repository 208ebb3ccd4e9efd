//! Witness generation and constraints for 32-bit wrapping addition.
//!
//! One row of the trace holds two operand words, the result word, three
//! inter-limb carry bits and an activation flag. `populate` fills the result
//! and carry columns for concrete operands and records every limb byte for
//! range-checking; `eval` emits the polynomial identities that force those
//! columns to be a valid witness, each scaled by the activation flag, plus the
//! matching range-check lookup requests.

use vstd::prelude::*;
use crate::builder::{ByteOpcode, ByteRecorder, ConstraintBuilder, LookupRequest};
use crate::field::{Fp, MODULUS, fmul, fsub};
use crate::word::{Word, byte_of};

verus! {

use vstd::arithmetic::div_mod::{
    lemma_small_mod, lemma_mod_add_multiples_vanish, lemma_sub_mod_noop, lemma_mod_bound,
    lemma_mul_mod_noop_general, lemma_fundamental_div_mod_converse_mod,
};
use vstd::arithmetic::mul::lemma_mul_basics;
use crate::field::{lemma_fadd_unreduced, lemma_fsub_unreduced, lemma_fmul_one};

/// The wrapping 32-bit sum of `a` and `b`.
pub open spec fn wrap_add(a: u32, b: u32) -> u32 {
    ((a + b) % 0x1_0000_0000) as u32
}

/// The carry out of limb `i` when adding `a` and `b` byte-wise: 1 exactly when
/// limb `i`'s raw byte sum, plus the incoming carry, exceeds 255.
pub open spec fn carry_out(a: u32, b: u32, i: int) -> int
    recommends
        0 <= i < 4,
    decreases i,
{
    if i <= 0 {
        if byte_of(a, 0) + byte_of(b, 0) > 255 {
            1
        } else {
            0
        }
    } else {
        if byte_of(a, i) + byte_of(b, i) + carry_out(a, b, i - 1) > 255 {
            1
        } else {
            0
        }
    }
}

/// Byte-wise addition with carries: each limb of the wrapping sum is the raw
/// byte sum, plus the carry in, minus 256 exactly when the carry goes out.
/// The carry out of the top limb is the discarded wraparound bit.
pub proof fn lemma_limb_addition(a: u32, b: u32)
    ensures
        byte_of(wrap_add(a, b), 0) == byte_of(a, 0) + byte_of(b, 0) - 256 * carry_out(a, b, 0),
        byte_of(wrap_add(a, b), 1) == byte_of(a, 1) + byte_of(b, 1) + carry_out(a, b, 0) - 256
            * carry_out(a, b, 1),
        byte_of(wrap_add(a, b), 2) == byte_of(a, 2) + byte_of(b, 2) + carry_out(a, b, 1) - 256
            * carry_out(a, b, 2),
        byte_of(wrap_add(a, b), 3) == byte_of(a, 3) + byte_of(b, 3) + carry_out(a, b, 2) - 256
            * carry_out(a, b, 3),
{
    assert(byte_of(wrap_add(a, b), 0) == byte_of(a, 0) + byte_of(b, 0) - 256 * carry_out(a, b, 0))
        by (bit_vector);
    assert(byte_of(wrap_add(a, b), 1) == byte_of(a, 1) + byte_of(b, 1) + carry_out(a, b, 0) - 256
        * carry_out(a, b, 1)) by (bit_vector);
    assert(byte_of(wrap_add(a, b), 2) == byte_of(a, 2) + byte_of(b, 2) + carry_out(a, b, 1) - 256
        * carry_out(a, b, 2)) by (bit_vector);
    assert(byte_of(wrap_add(a, b), 3) == byte_of(a, 3) + byte_of(b, 3) + carry_out(a, b, 2) - 256
        * carry_out(a, b, 3)) by (bit_vector);
}

/// The `j`-th of the twelve limb bytes a row submits for range-checking:
/// operand `a`'s limbs, then operand `b`'s, then the result's.
pub open spec fn lookup_byte(a: Word, b: Word, value: Word, j: int) -> int
    recommends
        0 <= j < 12,
{
    if j < 4 {
        a.limb(j)
    } else if j < 8 {
        b.limb(j - 4)
    } else {
        value.limb(j - 8)
    }
}

/// The six adjacent byte pairs the populator records for operands `a`, `b`
/// and their wrapping sum, in submission order.
pub open spec fn range_pairs(a: u32, b: u32, sum: u32) -> Seq<(u8, u8)> {
    seq![
        ((byte_of(a, 0) as u8, byte_of(a, 1) as u8)),
        ((byte_of(a, 2) as u8, byte_of(a, 3) as u8)),
        ((byte_of(b, 0) as u8, byte_of(b, 1) as u8)),
        ((byte_of(b, 2) as u8, byte_of(b, 3) as u8)),
        ((byte_of(sum, 0) as u8, byte_of(sum, 1) as u8)),
        ((byte_of(sum, 2) as u8, byte_of(sum, 3) as u8)),
    ]
}

/// The carry flowing into limb `i` from the carry columns; 0 for the lowest
/// limb.
pub open spec fn carry_in(cols: AddOperation, i: int) -> int
    recommends
        0 <= i < 4,
{
    if i == 0 {
        0
    } else {
        cols.carry@[i - 1].val()
    }
}

/// The limb-`i` overflow expression `a_i + b_i - value_i + carry_in`,
/// evaluated in the field. For a valid witness it is 0 or 256.
pub open spec fn overflow_val(a: Word, b: Word, cols: AddOperation, i: int) -> int
    recommends
        0 <= i < 4,
{
    (a.limb(i) + b.limb(i) - cols.value.limb(i) + carry_in(cols, i)) % (MODULUS as int)
}

/// The value of the `k`-th constraint `eval` emits for a row, in emission
/// order: four limb overflow identities, three carry-set couplings, three
/// carry-clear couplings, booleanity of the three carries and of the
/// activation flag — each scaled by the activation flag — and one
/// unconditional filler identity that is identically zero.
pub open spec fn constraint_val(a: Word, b: Word, cols: AddOperation, is_real: Fp, k: int) -> int
    recommends
        0 <= k < 15,
{
    let r = is_real.val();
    if 0 <= k < 4 {
        fmul(r, fmul(overflow_val(a, b, cols, k), fsub(overflow_val(a, b, cols, k), 256)))
    } else if 4 <= k < 7 {
        fmul(r, fmul(cols.carry@[k - 4].val(), fsub(overflow_val(a, b, cols, k - 4), 256)))
    } else if 7 <= k < 10 {
        fmul(r, fmul(fsub(cols.carry@[k - 7].val(), 1), overflow_val(a, b, cols, k - 7)))
    } else if 10 <= k < 13 {
        fmul(r, fmul(cols.carry@[k - 10].val(), fsub(cols.carry@[k - 10].val(), 1)))
    } else if k == 13 {
        fmul(r, fmul(r, fsub(r, 1)))
    } else {
        0
    }
}

/// All fifteen constraint values `eval` emits for a row, in emission order.
pub open spec fn constraint_seq(a: Word, b: Word, cols: AddOperation, is_real: Fp) -> Seq<int> {
    Seq::new(15, |k: int| constraint_val(a, b, cols, is_real, k))
}

/// What the `k`-th range-check lookup request of a row must hold: the Range
/// tag, zero filler slots, the row's `2k`-th and `2k+1`-th limb bytes, and
/// the activation flag as multiplicity.
pub open spec fn lookup_matches(
    req: LookupRequest,
    a: Word,
    b: Word,
    value: Word,
    is_real: Fp,
    k: int,
) -> bool {
    &&& req.opcode == ByteOpcode::Range
    &&& req.aux0.val() == 0
    &&& req.aux1.val() == 0
    &&& req.value0.val() == lookup_byte(a, b, value, 2 * k)
    &&& req.value1.val() == lookup_byte(a, b, value, 2 * k + 1)
    &&& req.multiplicity.val() == is_real.val()
}

/// Reconstructing the sum byte-by-byte from the operands' bytes and the
/// recorded carries reproduces the wrapping sum.
pub proof fn lemma_carry_reconstruction(a: u32, b: u32)
    ensures
        (byte_of(a, 0) + byte_of(b, 0) - 256 * carry_out(a, b, 0)) + 256 * (byte_of(a, 1)
            + byte_of(b, 1) + carry_out(a, b, 0) - 256 * carry_out(a, b, 1)) + 65536 * (byte_of(
            a, 2) + byte_of(b, 2) + carry_out(a, b, 1) - 256 * carry_out(a, b, 2)) + 16777216 * (
        byte_of(a, 3) + byte_of(b, 3) + carry_out(a, b, 2) - 256 * carry_out(a, b, 3))
            == wrap_add(a, b) as int,
{
    lemma_limb_addition(a, b);
    crate::word::lemma_byte_recompose(wrap_add(a, b));
}

/// A witness the populator produced satisfies every constraint the evaluator
/// emits: with the activation flag 1, all fifteen constraint values are zero.
pub proof fn lemma_populate_satisfies_constraints(
    a_u32: u32,
    b_u32: u32,
    a: Word,
    b: Word,
    cols: AddOperation,
    is_real: Fp,
)
    requires
        forall|i: int| 0 <= i < 4 ==> #[trigger] a.limb(i) == byte_of(a_u32, i),
        forall|i: int| 0 <= i < 4 ==> #[trigger] b.limb(i) == byte_of(b_u32, i),
        forall|i: int|
            0 <= i < 4 ==> #[trigger] cols.value.limb(i) == byte_of(wrap_add(a_u32, b_u32), i),
        forall|i: int|
            0 <= i < 3 ==> #[trigger] cols.carry@[i].val() == carry_out(a_u32, b_u32, i),
        is_real.val() == 1,
    ensures
        forall|k: int| 0 <= k < 15 ==> #[trigger] constraint_val(a, b, cols, is_real, k) == 0,
{
    lemma_limb_addition(a_u32, b_u32);
    lemma_small_mod(0nat, MODULUS as nat);
    lemma_small_mod(256nat, MODULUS as nat);
    lemma_mul_basics(0);
    assert(overflow_val(a, b, cols, 0) == 256 * carry_out(a_u32, b_u32, 0));
    assert(overflow_val(a, b, cols, 1) == 256 * carry_out(a_u32, b_u32, 1));
    assert(overflow_val(a, b, cols, 2) == 256 * carry_out(a_u32, b_u32, 2));
    assert(overflow_val(a, b, cols, 3) == 256 * carry_out(a_u32, b_u32, 3));
    assert forall|k: int| 0 <= k < 15 implies #[trigger] constraint_val(a, b, cols, is_real, k)
        == 0 by {
        if k < 4 {
            let o = overflow_val(a, b, cols, k);
            let c = carry_out(a_u32, b_u32, k);
            assert(o == 256 * c && (c == 0 || c == 1));
            lemma_mul_basics(fsub(o, 256));
            lemma_mul_basics(o);
            assert(fmul(o, fsub(o, 256)) == 0);
        } else if k < 7 {
            let o = overflow_val(a, b, cols, k - 4);
            let c = carry_out(a_u32, b_u32, k - 4);
            assert(o == 256 * c && (c == 0 || c == 1));
            lemma_mul_basics(fsub(o, 256));
            lemma_mul_basics(cols.carry@[k - 4].val());
            assert(fmul(cols.carry@[k - 4].val(), fsub(o, 256)) == 0);
        } else if k < 10 {
            let o = overflow_val(a, b, cols, k - 7);
            let c = carry_out(a_u32, b_u32, k - 7);
            assert(o == 256 * c && (c == 0 || c == 1));
            lemma_mul_basics(o);
            lemma_mul_basics(fsub(cols.carry@[k - 7].val(), 1));
            assert(fmul(fsub(cols.carry@[k - 7].val(), 1), o) == 0);
        } else if k < 13 {
            let c = carry_out(a_u32, b_u32, k - 10);
            assert(cols.carry@[k - 10].val() == c && (c == 0 || c == 1));
            lemma_mul_basics(fsub(cols.carry@[k - 10].val(), 1));
            lemma_mul_basics(cols.carry@[k - 10].val());
            assert(fmul(cols.carry@[k - 10].val(), fsub(cols.carry@[k - 10].val(), 1)) == 0);
        } else if k == 13 {
            lemma_mul_basics(fsub(is_real.val(), 1));
            assert(fmul(is_real.val(), fsub(is_real.val(), 1)) == 0);
        }
    }
}

/// Inactive rows are neutral: with the activation flag 0, every constraint
/// value is zero whatever the columns hold.
pub proof fn lemma_inactive_row_neutral(a: Word, b: Word, cols: AddOperation, is_real: Fp)
    requires
        is_real.val() == 0,
    ensures
        forall|k: int| 0 <= k < 15 ==> #[trigger] constraint_val(a, b, cols, is_real, k) == 0,
{
    lemma_small_mod(0nat, MODULUS as nat);
}

/// The byte pairs the populator records and the lookup requests the evaluator
/// emits list the same twelve bytes in the same six-pair order, whenever the
/// words carry the byte decompositions of the same operands and sum.
pub proof fn lemma_range_check_match(a_u32: u32, b_u32: u32, a: Word, b: Word, value: Word)
    requires
        forall|i: int| 0 <= i < 4 ==> #[trigger] a.limb(i) == byte_of(a_u32, i),
        forall|i: int| 0 <= i < 4 ==> #[trigger] b.limb(i) == byte_of(b_u32, i),
        forall|i: int|
            0 <= i < 4 ==> #[trigger] value.limb(i) == byte_of(wrap_add(a_u32, b_u32), i),
    ensures
        range_pairs(a_u32, b_u32, wrap_add(a_u32, b_u32)).len() == 6,
        forall|k: int|
            0 <= k < 6 ==> (#[trigger] range_pairs(a_u32, b_u32, wrap_add(a_u32, b_u32))[k]).0
                as int == lookup_byte(a, b, value, 2 * k) && range_pairs(
                a_u32,
                b_u32,
                wrap_add(a_u32, b_u32),
            )[k].1 as int == lookup_byte(a, b, value, 2 * k + 1),
{
    let s = wrap_add(a_u32, b_u32);
    assert forall|k: int|
        0 <= k < 6 implies (#[trigger] range_pairs(a_u32, b_u32, s)[k]).0 as int == lookup_byte(
        a,
        b,
        value,
        2 * k,
    ) && range_pairs(a_u32, b_u32, s)[k].1 as int == lookup_byte(a, b, value, 2 * k + 1) by {
        assert(a.limb(0) == byte_of(a_u32, 0) && a.limb(1) == byte_of(a_u32, 1) && a.limb(2)
            == byte_of(a_u32, 2) && a.limb(3) == byte_of(a_u32, 3));
        assert(b.limb(0) == byte_of(b_u32, 0) && b.limb(1) == byte_of(b_u32, 1) && b.limb(2)
            == byte_of(b_u32, 2) && b.limb(3) == byte_of(b_u32, 3));
        assert(value.limb(0) == byte_of(s, 0) && value.limb(1) == byte_of(s, 1) && value.limb(2)
            == byte_of(s, 2) && value.limb(3) == byte_of(s, 3));
    }
}

/// A zero overflow identity forces the unreduced limb difference to be 0 or
/// 256, provided it lies in the range a byte-ranged row can produce.
proof fn lemma_overflow_identity_sound(x: int)
    requires
        -256 < x < 512,
        fmul(x % (MODULUS as int), fsub(x % (MODULUS as int), 256)) == 0,
    ensures
        x == 0 || x == 256,
{
    let p = MODULUS as int;
    lemma_small_mod(256nat, MODULUS as nat);
    // fsub(x % p, 256) == (x - 256) % p
    lemma_sub_mod_noop(x, 256, p);
    // the identity is the reduction of the integer product
    lemma_mul_mod_noop_general(x, x - 256, p);
    let y = x * (x - 256);
    assert(y % p == 0);
    assert(-2013265921 < y < 2013265921) by (nonlinear_arith)
        requires
            -256 < x < 512,
            y == x * (x - 256),
    ;
    if y < 0 {
        lemma_mod_add_multiples_vanish(y, p);
        lemma_small_mod((y + p) as nat, MODULUS as nat);
        assert(false);
    } else {
        lemma_small_mod(y as nat, MODULUS as nat);
    }
    assert(x == 0 || x == 256) by (nonlinear_arith)
        requires
            x * (x - 256) == 0,
    ;
}

/// With the overflow fixed at 0 or 256, the two carry-coupling identities
/// force the carry bit to match it.
proof fn lemma_carry_coupling_sound(x: int, c: int)
    requires
        x == 0 || x == 256,
        c == 0 || c == 1,
        fmul(c, fsub(x % (MODULUS as int), 256)) == 0,
        fmul(fsub(c, 1), x % (MODULUS as int)) == 0,
    ensures
        256 * c == x,
{
    let p = MODULUS as int;
    lemma_small_mod(0nat, MODULUS as nat);
    lemma_small_mod(256nat, MODULUS as nat);
    lemma_small_mod((p - 256) as nat, MODULUS as nat);
    lemma_small_mod((p - 1) as nat, MODULUS as nat);
    if x == 0 && c == 1 {
        // the carry-set identity evaluates to the nonzero -256
        assert((0 - 256) % p == p - 256) by {
            lemma_mod_add_multiples_vanish(-256, p);
        }
        lemma_mul_basics(p - 256);
        assert(false);
    }
    if x == 256 && c == 0 {
        // the carry-clear identity evaluates to the nonzero -256
        assert((0 - 1) % p == p - 1) by {
            lemma_mod_add_multiples_vanish(-1, p);
        }
        lemma_mul_mod_noop_general(-1, 256, p);
        assert((-1 * 256) % p == p - 256) by {
            lemma_mul_basics(256);
            lemma_mod_add_multiples_vanish(-256, p);
        }
        assert(false);
    }
}

/// Soundness of the emitted identities: if every word is byte-ranged (what
/// the lookup argument enforces), the carries are boolean, and the ten gated
/// limb identities hold with activation 1, then the result word decodes to
/// the wrapping sum of the operands. Booleanity of the carries is what the
/// gated booleanity identities assert in the field; deriving it from them
/// would need the primality of the field order, which this development does
/// not formalize, so it stands as a hypothesis here.
pub proof fn lemma_constraints_force_sum(a: Word, b: Word, cols: AddOperation, is_real: Fp)
    requires
        a.wf(),
        b.wf(),
        cols.value.wf(),
        is_real.val() == 1,
        forall|i: int|
            0 <= i < 3 ==> (#[trigger] cols.carry@[i].val() == 0 || cols.carry@[i].val() == 1),
        forall|k: int| 0 <= k < 10 ==> #[trigger] constraint_val(a, b, cols, is_real, k) == 0,
    ensures
        cols.value.value() == (a.value() + b.value()) % 0x1_0000_0000,
        256 * cols.carry@[0].val() == a.limb(0) + b.limb(0) - cols.value.limb(0),
        256 * cols.carry@[1].val() == a.limb(1) + b.limb(1) - cols.value.limb(1) + cols.carry@[
            0
        ].val(),
        256 * cols.carry@[2].val() == a.limb(2) + b.limb(2) - cols.value.limb(2) + cols.carry@[
            1
        ].val(),
{
    let p = MODULUS as int;
    let c0 = cols.carry@[0].val();
    let c1 = cols.carry@[1].val();
    let c2 = cols.carry@[2].val();
    let x0 = a.limb(0) + b.limb(0) - cols.value.limb(0);
    let x1 = a.limb(1) + b.limb(1) - cols.value.limb(1) + c0;
    let x2 = a.limb(2) + b.limb(2) - cols.value.limb(2) + c1;
    let x3 = a.limb(3) + b.limb(3) - cols.value.limb(3) + c2;
    assert(overflow_val(a, b, cols, 0) == x0 % p);
    assert(overflow_val(a, b, cols, 1) == x1 % p);
    assert(overflow_val(a, b, cols, 2) == x2 % p);
    assert(overflow_val(a, b, cols, 3) == x3 % p);
    assert(a.limb(0) < 256 && a.limb(1) < 256 && a.limb(2) < 256 && a.limb(3) < 256);
    assert(b.limb(0) < 256 && b.limb(1) < 256 && b.limb(2) < 256 && b.limb(3) < 256);
    assert(cols.value.limb(0) < 256 && cols.value.limb(1) < 256 && cols.value.limb(2) < 256
        && cols.value.limb(3) < 256);

    // strip the activation factor off the ten identities
    assert forall|k: int| 0 <= k < 10 implies constraint_gated_inner(a, b, cols, k) == 0 by {
        assert(constraint_val(a, b, cols, is_real, k) == 0);
        let z = constraint_gated_inner(a, b, cols, k);
        lemma_mod_bound(constraint_gated_product(a, b, cols, k), p);
        lemma_fmul_one(z);
    }

    assert(constraint_gated_inner(a, b, cols, 0) == 0);
    assert(constraint_gated_inner(a, b, cols, 1) == 0);
    assert(constraint_gated_inner(a, b, cols, 2) == 0);
    assert(constraint_gated_inner(a, b, cols, 3) == 0);
    assert(constraint_gated_inner(a, b, cols, 4) == 0);
    assert(constraint_gated_inner(a, b, cols, 5) == 0);
    assert(constraint_gated_inner(a, b, cols, 6) == 0);
    assert(constraint_gated_inner(a, b, cols, 7) == 0);
    assert(constraint_gated_inner(a, b, cols, 8) == 0);
    assert(constraint_gated_inner(a, b, cols, 9) == 0);
    lemma_overflow_identity_sound(x0);
    lemma_overflow_identity_sound(x1);
    lemma_overflow_identity_sound(x2);
    lemma_overflow_identity_sound(x3);
    lemma_carry_coupling_sound(x0, c0);
    lemma_carry_coupling_sound(x1, c1);
    lemma_carry_coupling_sound(x2, c2);
    let c3: int = if x3 == 256 {
        1
    } else {
        0
    };
    assert(cols.value.value() == a.value() + b.value() - 0x1_0000_0000 * c3);
    lemma_fundamental_div_mod_converse_mod(
        a.value() + b.value(),
        0x1_0000_0000,
        c3,
        cols.value.value(),
    );
}

/// The inner, activation-free value of the `k`-th gated limb identity.
spec fn constraint_gated_inner(a: Word, b: Word, cols: AddOperation, k: int) -> int
    recommends
        0 <= k < 10,
{
    constraint_gated_product(a, b, cols, k) % (MODULUS as int)
}

/// The integer product whose reduction is the `k`-th gated limb identity's
/// inner value.
spec fn constraint_gated_product(a: Word, b: Word, cols: AddOperation, k: int) -> int
    recommends
        0 <= k < 10,
{
    if 0 <= k < 4 {
        overflow_val(a, b, cols, k) * fsub(overflow_val(a, b, cols, k), 256)
    } else if 4 <= k < 7 {
        cols.carry@[k - 4].val() * fsub(overflow_val(a, b, cols, k - 4), 256)
    } else {
        fsub(cols.carry@[k - 7].val(), 1) * overflow_val(a, b, cols, k - 7)
    }
}

/// Little-endian byte `i` of `x`.
fn le_byte(x: u32, i: u32) -> (r: u8)
    requires
        i < 4,
    ensures
        r as int == byte_of(x, i as int),
{
    if i == 0 {
        (x % 256) as u8
    } else if i == 1 {
        ((x / 256) % 256) as u8
    } else if i == 2 {
        ((x / 65536) % 256) as u8
    } else {
        ((x / 16777216) % 256) as u8
    }
}

/// The columns one 32-bit addition adds to a trace row: the result word and
/// the three inter-limb carry bits.
#[derive(Clone, Copy, Debug)]
pub struct AddOperation {
    /// The limbs of the wrapping sum.
    pub value: Word,
    /// `carry[i]` is 1 exactly when limb `i`'s raw sum, plus the incoming
    /// carry, exceeds 255; the top limb's carry is discarded.
    pub carry: [Fp; 3],
}

impl AddOperation {
    /// Zero-initialized columns, as a fresh trace row holds before the
    /// populator runs.
    pub fn new() -> (r: AddOperation)
        ensures
            r.value.value() == 0,
            forall|i: int| 0 <= i < 3 ==> #[trigger] r.carry@[i].val() == 0,
    {
        AddOperation { value: Word::from_u32(0), carry: [Fp::zero(), Fp::zero(), Fp::zero()] }
    }

    /// Fills the result and carry columns with the witness for
    /// `a_u32 + b_u32`, records all twelve limb bytes for range-checking as
    /// six adjacent pairs, and returns the wrapping sum.
    #[verifier::rlimit(60)]
    pub fn populate(&mut self, recorder: &mut ByteRecorder, a_u32: u32, b_u32: u32) -> (expected:
        u32)
        ensures
            expected == wrap_add(a_u32, b_u32),
            final(self).value.wf(),
            final(self).value.value() == expected as int,
            forall|i: int| 0 <= i < 4 ==> #[trigger] final(self).value.limb(i) == byte_of(
                expected, i),
            forall|i: int| 0 <= i < 3 ==> #[trigger] final(self).carry@[i].val() == carry_out(
                a_u32, b_u32, i),
            final(recorder).pairs@ == old(recorder).pairs@ + range_pairs(a_u32, b_u32, expected),
    {
        let expected = a_u32.wrapping_add(b_u32);
        proof {
            if a_u32 + b_u32 > u32::MAX {
                lemma_mod_add_multiples_vanish(a_u32 + b_u32 - 0x1_0000_0000, 0x1_0000_0000);
                lemma_small_mod((a_u32 + b_u32 - 0x1_0000_0000) as nat, 0x1_0000_0000);
            } else {
                lemma_small_mod((a_u32 + b_u32) as nat, 0x1_0000_0000);
            }
            assert(expected == wrap_add(a_u32, b_u32));
        }
        self.value = Word::from_u32(expected);

        let a0 = le_byte(a_u32, 0);
        let a1 = le_byte(a_u32, 1);
        let a2 = le_byte(a_u32, 2);
        let a3 = le_byte(a_u32, 3);
        let b0 = le_byte(b_u32, 0);
        let b1 = le_byte(b_u32, 1);
        let b2 = le_byte(b_u32, 2);
        let b3 = le_byte(b_u32, 3);
        let s0 = le_byte(expected, 0);
        let s1 = le_byte(expected, 1);
        let s2 = le_byte(expected, 2);
        let s3 = le_byte(expected, 3);

        let carry0: bool = (a0 as u32) + (b0 as u32) > 255;
        self.carry[0] = if carry0 {
            Fp::one()
        } else {
            Fp::zero()
        };
        let c0: u32 = if carry0 {
            1
        } else {
            0
        };
        let carry1: bool = (a1 as u32) + (b1 as u32) + c0 > 255;
        self.carry[1] = if carry1 {
            Fp::one()
        } else {
            Fp::zero()
        };
        let c1: u32 = if carry1 {
            1
        } else {
            0
        };
        let carry2: bool = (a2 as u32) + (b2 as u32) + c1 > 255;
        self.carry[2] = if carry2 {
            Fp::one()
        } else {
            Fp::zero()
        };

        proof {
            // The low limb's wraparound difference is algebraically 0 or 256:
            // the shape the limb identities emitted by `eval` rely on.
            lemma_limb_addition(a_u32, b_u32);
            assert(byte_of(a_u32, 0) + byte_of(b_u32, 0) - byte_of(expected, 0) == 0 || byte_of(
                a_u32, 0) + byte_of(b_u32, 0) - byte_of(expected, 0) == 256);
        }

        recorder.record_range_check(a0, a1);
        recorder.record_range_check(a2, a3);
        recorder.record_range_check(b0, b1);
        recorder.record_range_check(b2, b3);
        recorder.record_range_check(s0, s1);
        recorder.record_range_check(s2, s3);
        proof {
            assert(a0 == byte_of(a_u32, 0) as u8 && a1 == byte_of(a_u32, 1) as u8);
            assert(a2 == byte_of(a_u32, 2) as u8 && a3 == byte_of(a_u32, 3) as u8);
            assert(b0 == byte_of(b_u32, 0) as u8 && b1 == byte_of(b_u32, 1) as u8);
            assert(b2 == byte_of(b_u32, 2) as u8 && b3 == byte_of(b_u32, 3) as u8);
            assert(s0 == byte_of(expected, 0) as u8 && s1 == byte_of(expected, 1) as u8);
            assert(s2 == byte_of(expected, 2) as u8 && s3 == byte_of(expected, 3) as u8);
            assert(recorder.pairs@ =~= old(recorder).pairs@ + range_pairs(a_u32, b_u32, expected));
        }
        expected
    }

    /// Emits the constraints that force the columns to witness a correct
    /// wrapping addition, each scaled by the activation flag `is_real`, plus
    /// one range-check lookup request per adjacent byte pair and one
    /// unconditional filler identity of degree 3.
    #[verifier::rlimit(100)]
    pub fn eval(builder: &mut ConstraintBuilder, a: Word, b: Word, cols: AddOperation, is_real: Fp)
        ensures
            final(builder).cvals() == old(builder).cvals() + constraint_seq(a, b, cols, is_real),
            final(builder).lookups@.len() == old(builder).lookups@.len() + 6,
            forall|j: int|
                0 <= j < old(builder).lookups@.len() ==> #[trigger] final(builder).lookups@[j]
                    == old(builder).lookups@[j],
            forall|k: int|
                0 <= k < 6 ==> lookup_matches(
                    #[trigger] final(builder).lookups@[old(builder).lookups@.len() + k],
                    a,
                    b,
                    cols.value,
                    is_real,
                    k,
                ),
    {
        let one = Fp::one();
        let base = Fp::from_u32(256);
        let zero = Fp::zero();

        let al0 = a.limbs[0];
        let al1 = a.limbs[1];
        let al2 = a.limbs[2];
        let al3 = a.limbs[3];
        let bl0 = b.limbs[0];
        let bl1 = b.limbs[1];
        let bl2 = b.limbs[2];
        let bl3 = b.limbs[3];
        let vl0 = cols.value.limbs[0];
        let vl1 = cols.value.limbs[1];
        let vl2 = cols.value.limbs[2];
        let vl3 = cols.value.limbs[3];
        let c0 = cols.carry[0];
        let c1 = cols.carry[1];
        let c2 = cols.carry[2];

        proof {
            use_type_invariant(vl0);
            use_type_invariant(vl1);
            use_type_invariant(vl2);
            use_type_invariant(vl3);
            use_type_invariant(c0);
            use_type_invariant(c1);
            use_type_invariant(c2);
            lemma_small_mod(vl0.val() as nat, MODULUS as nat);
            lemma_small_mod(vl1.val() as nat, MODULUS as nat);
            lemma_small_mod(vl2.val() as nat, MODULUS as nat);
            lemma_small_mod(vl3.val() as nat, MODULUS as nat);
            lemma_small_mod(c0.val() as nat, MODULUS as nat);
            lemma_small_mod(c1.val() as nat, MODULUS as nat);
            lemma_small_mod(c2.val() as nat, MODULUS as nat);
        }

        let overflow_0 = al0.add(bl0).sub(vl0);
        let overflow_1 = al1.add(bl1).sub(vl1).add(c0);
        let overflow_2 = al2.add(bl2).sub(vl2).add(c1);
        let overflow_3 = al3.add(bl3).sub(vl3).add(c2);

        proof {
            lemma_fsub_unreduced(al0.val() + bl0.val(), vl0.val());
            assert(overflow_0.val() == overflow_val(a, b, cols, 0));
            lemma_fsub_unreduced(al1.val() + bl1.val(), vl1.val());
            lemma_fadd_unreduced(al1.val() + bl1.val() - vl1.val(), c0.val());
            assert(overflow_1.val() == overflow_val(a, b, cols, 1));
            lemma_fsub_unreduced(al2.val() + bl2.val(), vl2.val());
            lemma_fadd_unreduced(al2.val() + bl2.val() - vl2.val(), c1.val());
            assert(overflow_2.val() == overflow_val(a, b, cols, 2));
            lemma_fsub_unreduced(al3.val() + bl3.val(), vl3.val());
            lemma_fadd_unreduced(al3.val() + bl3.val() - vl3.val(), c2.val());
            assert(overflow_3.val() == overflow_val(a, b, cols, 3));
        }

        // For each limb, the difference between the carried and non-carried
        // result is either zero or the base.
        builder.assert_zero_when(is_real, overflow_0.mul(overflow_0.sub(base)));
        builder.assert_zero_when(is_real, overflow_1.mul(overflow_1.sub(base)));
        builder.assert_zero_when(is_real, overflow_2.mul(overflow_2.sub(base)));
        builder.assert_zero_when(is_real, overflow_3.mul(overflow_3.sub(base)));

        // If a carry is set, the matching overflow must be the base.
        builder.assert_zero_when(is_real, c0.mul(overflow_0.sub(base)));
        builder.assert_zero_when(is_real, c1.mul(overflow_1.sub(base)));
        builder.assert_zero_when(is_real, c2.mul(overflow_2.sub(base)));

        // If a carry is clear, the matching overflow must be zero.
        builder.assert_zero_when(is_real, c0.sub(one).mul(overflow_0));
        builder.assert_zero_when(is_real, c1.sub(one).mul(overflow_1));
        builder.assert_zero_when(is_real, c2.sub(one).mul(overflow_2));

        // Every carry bit, and the activation flag itself, must be boolean.
        builder.assert_boolean_when(is_real, c0);
        builder.assert_boolean_when(is_real, c1);
        builder.assert_boolean_when(is_real, c2);
        builder.assert_boolean_when(is_real, is_real);

        // Range-check the twelve limb bytes, two per lookup request, with the
        // activation flag as multiplicity so inactive rows add no demand.
        builder.emit_lookup(ByteOpcode::Range, zero, zero, al0, al1, is_real);
        builder.emit_lookup(ByteOpcode::Range, zero, zero, al2, al3, is_real);
        builder.emit_lookup(ByteOpcode::Range, zero, zero, bl0, bl1, is_real);
        builder.emit_lookup(ByteOpcode::Range, zero, zero, bl2, bl3, is_real);
        builder.emit_lookup(ByteOpcode::Range, zero, zero, vl0, vl1, is_real);
        builder.emit_lookup(ByteOpcode::Range, zero, zero, vl2, vl3, is_real);

        // Unconditional identity with no logical content: one downstream
        // proving backend requires a minimum constraint degree of 3, and this
        // keeps the row there. It is identically zero.
        let t = al0.mul(bl0).mul(vl0);
        builder.assert_zero(t.sub(t));

        proof {
            lemma_small_mod(0nat, MODULUS as nat);
            assert(builder.cvals() =~= old(builder).cvals() + constraint_seq(a, b, cols, is_real));
        }
    }
}

} // verus!

