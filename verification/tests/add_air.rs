use add_air::addition::AddOperation;
use add_air::builder::{ByteOpcode, ByteRecorder, ConstraintBuilder};
use add_air::field::{Fp, MODULUS};
use add_air::word::Word;

fn carries(op: &AddOperation) -> [u64; 3] {
    [
        op.carry[0].as_canonical_u64(),
        op.carry[1].as_canonical_u64(),
        op.carry[2].as_canonical_u64(),
    ]
}

fn run_populate(a: u32, b: u32) -> (AddOperation, ByteRecorder, u32) {
    let mut op = AddOperation::new();
    let mut rec = ByteRecorder::new();
    let sum = op.populate(&mut rec, a, b);
    (op, rec, sum)
}

fn run_eval(a: u32, b: u32, cols: AddOperation, is_real: Fp) -> ConstraintBuilder {
    let mut builder = ConstraintBuilder::new();
    AddOperation::eval(&mut builder, Word::from_u32(a), Word::from_u32(b), cols, is_real);
    builder
}

#[test]
fn field_ops_reduce_modulo_the_prime() {
    assert_eq!(Fp::from_u32(MODULUS as u32).as_canonical_u64(), 0);
    assert_eq!(Fp::zero().sub(Fp::one()).as_canonical_u64(), MODULUS - 1);
    assert_eq!(Fp::from_u32(100).add(Fp::from_u32(200)).as_canonical_u64(), 300);
    let big = Fp::from_u32(65536);
    assert_eq!(big.mul(big).as_canonical_u64(), (65536u64 * 65536u64) % MODULUS);
    assert_eq!(Fp::one().mul(Fp::from_u32(7)).as_canonical_u64(), 7);
}

#[test]
fn word_round_trips_through_u32() {
    let w = Word::from_u32(0xdead_beef);
    assert_eq!(w.limbs[0].as_canonical_u64(), 0xef);
    assert_eq!(w.limbs[1].as_canonical_u64(), 0xbe);
    assert_eq!(w.limbs[2].as_canonical_u64(), 0xad);
    assert_eq!(w.limbs[3].as_canonical_u64(), 0xde);
    assert_eq!(w.to_u32(), 0xdead_beef);
    assert_eq!(Word::from_u32(0).to_u32(), 0);
    assert_eq!(Word::from_u32(u32::MAX).to_u32(), u32::MAX);
}

#[test]
fn populate_wraps_around() {
    let (op, _, sum) = run_populate(4294967295, 1);
    assert_eq!(sum, 0);
    assert_eq!(op.value.to_u32(), 0);
    assert_eq!(carries(&op), [1, 1, 1]);
}

#[test]
fn populate_carries_once() {
    let (op, _, sum) = run_populate(255, 1);
    assert_eq!(sum, 256);
    assert_eq!(op.value.to_u32(), 256);
    assert_eq!(op.value.limbs[0].as_canonical_u64(), 0);
    assert_eq!(op.value.limbs[1].as_canonical_u64(), 1);
    assert_eq!(carries(&op), [1, 0, 0]);
}

#[test]
fn populate_zero_operands() {
    let (op, _, sum) = run_populate(0, 0);
    assert_eq!(sum, 0);
    assert_eq!(op.value.to_u32(), 0);
    assert_eq!(carries(&op), [0, 0, 0]);
}

#[test]
fn populate_low_limb_overflow() {
    let (op, _, sum) = run_populate(100, 200);
    assert_eq!(sum, 300);
    assert_eq!(op.value.to_u32(), 300);
    assert_eq!(carries(&op), [1, 0, 0]);
}

#[test]
fn populate_records_six_pairs_in_order() {
    let (_, rec, sum) = run_populate(0x04030201, 0x08070605);
    assert_eq!(sum, 0x0c0a0806);
    assert_eq!(
        rec.pairs,
        vec![(1, 2), (3, 4), (5, 6), (7, 8), (0x06, 0x08), (0x0a, 0x0c)]
    );
}

#[test]
fn witness_satisfies_all_constraints() {
    let cases = [
        (0u32, 0u32),
        (255, 1),
        (100, 200),
        (4294967295, 1),
        (0x89ab_cdef, 0x1234_5678),
        (0xffff_0001, 0x0001_ffff),
    ];
    for &(a, b) in cases.iter() {
        let (op, _, _) = run_populate(a, b);
        let builder = run_eval(a, b, op, Fp::one());
        assert_eq!(builder.constraints.len(), 15);
        for c in builder.constraints.iter() {
            assert_eq!(c.as_canonical_u64(), 0);
        }
    }
}

#[test]
fn lookup_requests_match_recorded_pairs() {
    let a: u32 = 0xfedc_ba98;
    let b: u32 = 0x0765_4321;
    let (op, rec, _) = run_populate(a, b);
    let builder = run_eval(a, b, op, Fp::one());
    assert_eq!(builder.lookups.len(), 6);
    assert_eq!(rec.pairs.len(), 6);
    for k in 0..6 {
        let l = builder.lookups[k];
        assert!(l.opcode == ByteOpcode::Range);
        assert_eq!(l.aux0.as_canonical_u64(), 0);
        assert_eq!(l.aux1.as_canonical_u64(), 0);
        assert_eq!(l.multiplicity.as_canonical_u64(), 1);
        let pair = (l.value0.as_canonical_u64() as u8, l.value1.as_canonical_u64() as u8);
        assert_eq!(pair, rec.pairs[k]);
    }
}

#[test]
fn corrupted_carry_violates_a_constraint() {
    let (mut op, _, _) = run_populate(255, 1);
    op.carry[0] = Fp::zero();
    let builder = run_eval(255, 1, op, Fp::one());
    // the carry-clear coupling for the low limb sees overflow 256 with a
    // cleared carry
    assert_ne!(builder.constraints[7].as_canonical_u64(), 0);
}

#[test]
fn corrupted_result_violates_a_constraint() {
    let (mut op, _, _) = run_populate(255, 1);
    op.value = Word::from_u32(257);
    let builder = run_eval(255, 1, op, Fp::one());
    // the low-limb overflow identity no longer evaluates to 0 or 256
    assert_ne!(builder.constraints[0].as_canonical_u64(), 0);
}

#[test]
fn inactive_row_imposes_nothing() {
    let mut op = AddOperation::new();
    op.value = Word::from_u32(0xdead_beef);
    op.carry = [Fp::from_u32(7), Fp::from_u32(1), Fp::from_u32(255)];
    let mut builder = ConstraintBuilder::new();
    AddOperation::eval(
        &mut builder,
        Word::from_u32(123),
        Word::from_u32(45678),
        op,
        Fp::zero(),
    );
    assert_eq!(builder.constraints.len(), 15);
    for c in builder.constraints.iter() {
        assert_eq!(c.as_canonical_u64(), 0);
    }
    for l in builder.lookups.iter() {
        assert_eq!(l.multiplicity.as_canonical_u64(), 0);
    }
}

#[test]
fn eval_appends_to_existing_builder() {
    let mut builder = ConstraintBuilder::new();
    builder.assert_zero(Fp::from_u32(42));
    let (op, _, _) = run_populate(1, 2);
    AddOperation::eval(&mut builder, Word::from_u32(1), Word::from_u32(2), op, Fp::one());
    assert_eq!(builder.constraints.len(), 16);
    assert_eq!(builder.constraints[0].as_canonical_u64(), 42);
}

#[test]
fn carries_reconstruct_the_sum() {
    let cases = [(0u32, 0u32), (255, 1), (100, 200), (4294967295, 1), (0x89ab_cdef, 0x1234_5678)];
    for &(a, b) in cases.iter() {
        let (op, _, sum) = run_populate(a, b);
        let ab = a.to_le_bytes();
        let bb = b.to_le_bytes();
        let c = carries(&op);
        let mut limbs = [0i64; 4];
        limbs[0] = ab[0] as i64 + bb[0] as i64 - 256 * c[0] as i64;
        limbs[1] = ab[1] as i64 + bb[1] as i64 + c[0] as i64 - 256 * c[1] as i64;
        limbs[2] = ab[2] as i64 + bb[2] as i64 + c[1] as i64 - 256 * c[2] as i64;
        let top = ab[3] as i64 + bb[3] as i64 + c[2] as i64;
        limbs[3] = top & 0xff;
        let rebuilt =
            limbs[0] + 256 * limbs[1] + 65536 * limbs[2] + 16777216 * limbs[3];
        assert_eq!(rebuilt, sum as i64);
        for (i, l) in limbs.iter().enumerate() {
            assert_eq!(*l, sum.to_le_bytes()[i] as i64);
        }
    }
}
