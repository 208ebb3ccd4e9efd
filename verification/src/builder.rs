//! The constraint-expression sink and the byte range-check recorder.
//!
//! The surrounding circuit owns a constraint algebra into which each operation
//! emits zero-equality assertions and lookup requests. Here that algebra is
//! instantiated concretely: every asserted expression is evaluated over the
//! scalar field and appended in order, so a row's witness satisfies the
//! emitted constraints exactly when every appended value is zero. The
//! activation-scoped ("guarded") assertion pattern is an explicit
//! multiply-then-assert combinator, so the scoping stays visible at each call.

use vstd::prelude::*;
use crate::field::{Fp, fmul, fsub};

verus! {

/// Identifies which shared lookup table a request targets.
#[derive(Clone, Copy, Debug, PartialEq, Eq, Structural)]
pub enum ByteOpcode {
    /// The byte range-check table: both looked-up values must be bytes.
    Range,
}

/// Records, during witness generation, the byte pairs that must appear in the
/// trace-wide byte-range lookup table.
pub struct ByteRecorder {
    /// The recorded pairs, oldest first.
    pub pairs: Vec<(u8, u8)>,
}

impl ByteRecorder {
    /// An empty recorder.
    pub fn new() -> (r: ByteRecorder)
        ensures
            r.pairs@.len() == 0,
    {
        ByteRecorder { pairs: Vec::new() }
    }

    /// Declares that the pair `(a, b)` must appear in the byte-range table.
    pub fn record_range_check(&mut self, a: u8, b: u8)
        ensures
            final(self).pairs@ == old(self).pairs@.push((a, b)),
    {
        self.pairs.push((a, b));
    }
}

/// One lookup-argument request into a shared table: the table tag, two filler
/// slots of the fixed four-value tuple shape, the two looked-up values, and a
/// multiplicity.
#[derive(Clone, Copy, Debug, PartialEq, Eq, Structural)]
pub struct LookupRequest {
    /// Which table the request targets.
    pub opcode: ByteOpcode,
    /// First filler slot.
    pub aux0: Fp,
    /// Second filler slot.
    pub aux1: Fp,
    /// First looked-up value.
    pub value0: Fp,
    /// Second looked-up value.
    pub value1: Fp,
    /// How many times the row demands the tuple; 0 for inactive rows.
    pub multiplicity: Fp,
}

/// A concrete constraint-expression sink. Assertions and lookup requests are
/// appended in emission order and never removed.
pub struct ConstraintBuilder {
    /// Values of the asserted-zero expressions, in emission order.
    pub constraints: Vec<Fp>,
    /// The emitted lookup requests, in emission order.
    pub lookups: Vec<LookupRequest>,
}

impl ConstraintBuilder {
    /// The asserted constraint values, decoded to integers.
    pub open spec fn cvals(self) -> Seq<int> {
        self.constraints@.map_values(|f: Fp| f.val())
    }

    /// An empty sink.
    pub fn new() -> (r: ConstraintBuilder)
        ensures
            r.constraints@.len() == 0,
            r.lookups@.len() == 0,
    {
        ConstraintBuilder { constraints: Vec::new(), lookups: Vec::new() }
    }

    /// Asserts that `e` must be zero, unconditionally.
    pub fn assert_zero(&mut self, e: Fp)
        ensures
            final(self).cvals() == old(self).cvals().push(e.val()),
            final(self).lookups@ == old(self).lookups@,
    {
        self.constraints.push(e);
        proof {
            lemma_cvals_push(old(self).constraints@, e);
        }
    }

    /// The guarded-constraint combinator: asserts `gate * e`, so a row whose
    /// gate is zero imposes no requirement on `e`.
    pub fn assert_zero_when(&mut self, gate: Fp, e: Fp)
        ensures
            final(self).cvals() == old(self).cvals().push(fmul(gate.val(), e.val())),
            final(self).lookups@ == old(self).lookups@,
    {
        let guarded = gate.mul(e);
        self.assert_zero(guarded);
    }

    /// The gated booleanity assertion: `gate * (e * (e - 1))` must be zero.
    pub fn assert_boolean_when(&mut self, gate: Fp, e: Fp)
        ensures
            final(self).cvals() == old(self).cvals().push(
                fmul(gate.val(), fmul(e.val(), fsub(e.val(), 1))),
            ),
            final(self).lookups@ == old(self).lookups@,
    {
        let one = Fp::one();
        let boolean = e.mul(e.sub(one));
        self.assert_zero_when(gate, boolean);
    }

    /// Emits one lookup request into the table tagged `opcode`.
    pub fn emit_lookup(
        &mut self,
        opcode: ByteOpcode,
        aux0: Fp,
        aux1: Fp,
        value0: Fp,
        value1: Fp,
        multiplicity: Fp,
    )
        ensures
            final(self).lookups@ == old(self).lookups@.push(
                (LookupRequest { opcode, aux0, aux1, value0, value1, multiplicity }),
            ),
            final(self).constraints@ == old(self).constraints@,
            final(self).cvals() == old(self).cvals(),
    {
        self.lookups.push(LookupRequest { opcode, aux0, aux1, value0, value1, multiplicity });
    }
}

/// Pushing an element and then decoding commutes with decoding and then
/// pushing the element's value.
proof fn lemma_cvals_push(pre: Seq<Fp>, f: Fp)
    ensures
        pre.push(f).map_values(|x: Fp| x.val()) == pre.map_values(|x: Fp| x.val()).push(f.val()),
{
    assert(pre.push(f).map_values(|x: Fp| x.val()) =~= pre.map_values(|x: Fp| x.val()).push(
        f.val(),
    ));
}

} // verus!
