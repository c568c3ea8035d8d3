//! Signal conditioner: a second-order direct-form-one filter over
//! fixed-point samples, applied strictly in order with a two-sample memory.
//! The coefficients select the frequency band of interest; they are
//! supplied by the caller in fixed-point form.

use vstd::prelude::*;
use crate::config::{
    sample_ok, samples_ok, COEFF_LIMIT, COEFF_SCALE, SAMPLE_LIMIT,
};

verus! {

/// Fixed-point coefficients of a second-order section, scaled by
/// `COEFF_SCALE` (so `COEFF_SCALE` itself means unity).
#[derive(Clone, Copy, Debug, PartialEq, Eq, Structural)]
pub struct FilterCoeffs {
    pub b0: i64,
    pub b1: i64,
    pub b2: i64,
    pub a1: i64,
    pub a2: i64,
}

impl FilterCoeffs {
    /// Every coefficient within the magnitude any stable second-order
    /// section needs.
    pub open spec fn wf(self) -> bool {
        &&& -COEFF_LIMIT <= self.b0 <= COEFF_LIMIT
        &&& -COEFF_LIMIT <= self.b1 <= COEFF_LIMIT
        &&& -COEFF_LIMIT <= self.b2 <= COEFF_LIMIT
        &&& -COEFF_LIMIT <= self.a1 <= COEFF_LIMIT
        &&& -COEFF_LIMIT <= self.a2 <= COEFF_LIMIT
    }

    /// The all-pass section: every sample comes through unchanged.
    pub fn identity() -> (r: FilterCoeffs)
        ensures
            r.wf(),
            r == (FilterCoeffs { b0: COEFF_SCALE, b1: 0, b2: 0, a1: 0, a2: 0 }),
    {
        FilterCoeffs { b0: COEFF_SCALE, b1: 0, b2: 0, a1: 0, a2: 0 }
    }
}

/// The filter with its memory: the two previous inputs and the two
/// previous outputs, as the direct-form-one update reads them.
#[derive(Clone, Copy, Debug, PartialEq, Eq, Structural)]
pub struct SignalConditioner {
    pub coeffs: FilterCoeffs,
    pub x1: i32,
    pub x2: i32,
    pub y1: i32,
    pub y2: i32,
}

/// Division by the coefficient scale, rounding toward zero, as the
/// executable code computes it on either sign.
pub open spec fn div_scale(a: int) -> int {
    if a >= 0 {
        a / (COEFF_SCALE as int)
    } else {
        -((-a) / (COEFF_SCALE as int))
    }
}

/// Clamp a value to the representable sample range.
pub open spec fn clamp_sample(v: int) -> int {
    if v > SAMPLE_LIMIT {
        SAMPLE_LIMIT as int
    } else if v < -SAMPLE_LIMIT {
        -SAMPLE_LIMIT as int
    } else {
        v
    }
}

/// The raw direct-form-one accumulator, before scaling and clamping.
pub open spec fn spec_acc(st: SignalConditioner, x: int) -> int {
    st.coeffs.b0 * x + st.coeffs.b1 * st.x1 + st.coeffs.b2 * st.x2
        - st.coeffs.a1 * st.y1 - st.coeffs.a2 * st.y2
}

/// The sample the filter emits for input `x` in state `st`.
pub open spec fn spec_output(st: SignalConditioner, x: int) -> int {
    clamp_sample(div_scale(spec_acc(st, x)))
}

/// The state after one sample has been processed.
pub open spec fn spec_step(st: SignalConditioner, x: i32) -> SignalConditioner {
    SignalConditioner {
        coeffs: st.coeffs,
        x1: x,
        x2: st.x1,
        y1: spec_output(st, x as int) as i32,
        y2: st.y1,
    }
}

impl SignalConditioner {
    /// Well-formed coefficients and a memory within sample range.
    pub open spec fn wf(self) -> bool {
        &&& self.coeffs.wf()
        &&& sample_ok(self.x1 as int)
        &&& sample_ok(self.x2 as int)
        &&& sample_ok(self.y1 as int)
        &&& sample_ok(self.y2 as int)
    }

    /// A fresh filter with silent memory.
    pub fn new(coeffs: FilterCoeffs) -> (r: SignalConditioner)
        requires
            coeffs.wf(),
        ensures
            r == spec_init(coeffs),
            r.wf(),
    {
        SignalConditioner { coeffs, x1: 0, x2: 0, y1: 0, y2: 0 }
    }

    /// Feed one sample through the filter, advancing its memory.
    pub fn process_sample(&mut self, x: i32) -> (y: i32)
        requires
            old(self).wf(),
            sample_ok(x as int),
        ensures
            *final(self) == spec_step(*old(self), x),
            final(self).wf(),
            y as int == spec_output(*old(self), x as int),
            sample_ok(y as int),
    {
        let acc: i64 = mul_coeff_sample(self.coeffs.b0, x)
            + mul_coeff_sample(self.coeffs.b1, self.x1)
            + mul_coeff_sample(self.coeffs.b2, self.x2)
            - mul_coeff_sample(self.coeffs.a1, self.y1)
            - mul_coeff_sample(self.coeffs.a2, self.y2);
        let scaled: i64 = if acc >= 0 {
            ((acc as u64) / (COEFF_SCALE as u64)) as i64
        } else {
            -((((-acc) as u64) / (COEFF_SCALE as u64)) as i64)
        };
        let y: i32 = if scaled > SAMPLE_LIMIT as i64 {
            SAMPLE_LIMIT
        } else if scaled < -(SAMPLE_LIMIT as i64) {
            -SAMPLE_LIMIT
        } else {
            scaled as i32
        };
        self.y2 = self.y1;
        self.y1 = y;
        self.x2 = self.x1;
        self.x1 = x;
        y
    }
}

/// The state the filter is in at the start of a fresh run.
pub open spec fn spec_init(coeffs: FilterCoeffs) -> SignalConditioner {
    SignalConditioner { coeffs, x1: 0, x2: 0, y1: 0, y2: 0 }
}

/// The filter state just before sample `i` of `xs` is processed.
pub open spec fn spec_state_at(xs: Seq<i32>, coeffs: FilterCoeffs, i: int) -> SignalConditioner
    decreases i,
{
    if i <= 0 {
        spec_init(coeffs)
    } else {
        spec_step(spec_state_at(xs, coeffs, i - 1), xs[i - 1])
    }
}

/// The whole conditioned stream: sample `i` of the output is what the
/// filter emits for sample `i` of the input, in order, from silent memory.
pub open spec fn spec_condition(xs: Seq<i32>, coeffs: FilterCoeffs) -> Seq<i32> {
    Seq::new(xs.len(), |i: int| spec_output(spec_state_at(xs, coeffs, i), xs[i] as int) as i32)
}

/// One coefficient times one sample, with the bound the accumulator needs.
fn mul_coeff_sample(c: i64, s: i32) -> (r: i64)
    requires
        -COEFF_LIMIT <= c <= COEFF_LIMIT,
        sample_ok(s as int),
    ensures
        r == c * s,
        -0x80000000000 <= r <= 0x80000000000,
{
    proof {
        assert(c * s <= 0x80000000000 && c * s >= -0x80000000000) by (nonlinear_arith)
            requires
                -COEFF_LIMIT <= c <= COEFF_LIMIT,
                -SAMPLE_LIMIT <= s <= SAMPLE_LIMIT,
        ;
    }
    c * (s as i64)
}

/// Condition a whole stream: apply the filter to every sample strictly in
/// order, starting from silent memory. The output has the same length as
/// the input and is a function of the input and the coefficients alone.
pub fn condition_samples(samples: &Vec<i32>, coeffs: &FilterCoeffs) -> (out: Vec<i32>)
    requires
        coeffs.wf(),
        samples_ok(samples@),
    ensures
        out@ == spec_condition(samples@, *coeffs),
        out@.len() == samples@.len(),
        samples_ok(out@),
{
    let n = samples.len();
    let mut out: Vec<i32> = Vec::new();
    let mut st = SignalConditioner::new(*coeffs);
    let mut i: usize = 0;
    while i < n
        invariant
            i <= n,
            n == samples@.len(),
            coeffs.wf(),
            samples_ok(samples@),
            st == spec_state_at(samples@, *coeffs, i as int),
            st.wf(),
            out@.len() == i,
            forall|j: int| 0 <= j < i ==> out@[j] == spec_condition(samples@, *coeffs)[j],
        decreases n - i,
    {
        let x = samples[i];
        let y = st.process_sample(x);
        out.push(y);
        i = i + 1;
        proof {
            assert(st == spec_state_at(samples@, *coeffs, i as int));
        }
    }
    proof {
        assert(out@ =~= spec_condition(samples@, *coeffs));
    }
    out
}

/// The conditioner is deterministic: identical inputs and coefficients
/// give the identical output, and the output always has the input's
/// length.
pub proof fn lemma_conditioner_deterministic(
    a: Seq<i32>,
    b: Seq<i32>,
    coeffs: FilterCoeffs,
)
    requires
        a == b,
    ensures
        spec_condition(a, coeffs) == spec_condition(b, coeffs),
        spec_condition(a, coeffs).len() == a.len(),
{
}

} // verus!
