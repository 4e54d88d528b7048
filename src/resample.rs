//! Bookkeeping of the linear-interpolating output resampler (228 kHz to 192 kHz).
//!
//! The fractional phase is kept exactly, in units of `1 / den` of a source sample, with
//! `step / den` the ratio of the source rate to the output rate. For each output sample
//! the resampler says how many source samples to pull and at which fraction between the
//! last two to interpolate.
use vstd::prelude::*;

verus! {

/// The resampler's phase and counts.
pub struct OutputResampler {
    /// Position past the older of the two held source samples, in units of `1 / den`.
    pub phase: u64,
    /// Source samples per output sample, in units of `1 / den`.
    pub step: u64,
    /// Units per source sample (the output rate).
    pub den: u64,
    /// Whether the first source sample was pulled.
    pub has_next: bool,
    /// Output samples produced.
    pub produced: Ghost<nat>,
    /// Source samples pulled.
    pub pulled: Ghost<nat>,
}

/// What one output sample asks for.
#[derive(Clone, Copy, Debug, PartialEq, Eq)]
pub struct ResampleStep {
    /// Source samples to pull, each shifting the newer held sample into the older.
    pub pulls: u64,
    /// Interpolation fraction between the older and the newer sample, in units of `1 / den`.
    pub frac: u64,
}

impl OutputResampler {
    /// The phase invariant: the phase is a fraction of a source sample in `[0, 1)`, and after
    /// `produced` output samples `pulled` source samples were taken, one at the start and
    /// one each time the phase passed a whole sample.
    pub open spec fn wf(&self) -> bool {
        &&& 0 < self.den <= u32::MAX
        &&& self.step <= u32::MAX
        &&& self.phase < self.den
        &&& !self.has_next ==> self.phase == 0 && self.produced@ == 0 && self.pulled@ == 0
        &&& self.has_next ==> {
            &&& self.produced@ >= 1
            &&& self.pulled@ >= 1
            &&& (self.pulled@ - 1) * self.den + self.phase == self.produced@ * self.step
        }
    }

    /// A resampler from `internal_rate` to `output_rate` (in Hz), before its first sample.
    pub fn new(internal_rate: u32, output_rate: u32) -> (r: Self)
        requires
            output_rate > 0,
        ensures
            r.wf(),
            r.step == internal_rate,
            r.den == output_rate,
            r.phase == 0,
            !r.has_next,
            r.produced@ == 0,
            r.pulled@ == 0,
    {
        OutputResampler {
            phase: 0,
            step: internal_rate as u64,
            den: output_rate as u64,
            has_next: false,
            produced: Ghost(0),
            pulled: Ghost(0),
        }
    }

    /// The pulls and the interpolation fraction of the next output sample: the first
    /// sample pulls once to fill the newer slot; then the phase advances by one step, one
    /// source sample is pulled for each whole sample it passed, and what is left, in
    /// `[0, 1)`, is the fraction to interpolate at.
    pub fn next_step(&mut self) -> (r: ResampleStep)
        requires
            old(self).wf(),
        ensures
            final(self).wf(),
            final(self).phase < final(self).den,
            r.frac == final(self).phase,
            final(self).den == old(self).den,
            final(self).step == old(self).step,
            final(self).produced@ == old(self).produced@ + 1,
            final(self).pulled@ == old(self).pulled@ + r.pulls,
            r.pulls == (if old(self).has_next { 0int } else { 1int }) + (old(self).phase
                + old(self).step) / (old(self).den as int),
            r.frac == (old(self).phase + old(self).step) % (old(self).den as int),
    {
        let mut pulls: u64 = 0;
        if !self.has_next {
            pulls = 1;
            self.has_next = true;
        }
        let ghost first = pulls;
        let advanced = self.phase + self.step;
        let q = advanced / self.den;
        let frac = advanced % self.den;
        pulls = pulls + q;
        proof {
            let d = self.den as int;
            let st = self.step as int;
            let a = advanced as int;
            let p0 = a - st;
            assert(a == q * d + frac) by (nonlinear_arith)
                requires
                    q == a / d,
                    frac == a % d,
                    d > 0,
            ;
            assert(q <= a) by (nonlinear_arith)
                requires
                    q == a / d,
                    d > 0,
            ;
            let old_pulled = self.pulled@;
            let old_produced = self.produced@;
            self.pulled = Ghost((old_pulled + pulls) as nat);
            self.produced = Ghost((old_produced + 1) as nat);
            if first == 0 {
                assert((old_pulled + q - 1) * d + frac == (old_produced + 1) * st)
                    by (nonlinear_arith)
                    requires
                        (old_pulled - 1) * d + p0 == old_produced * st,
                        a == q * d + frac,
                        a == p0 + st,
                ;
            } else {
                assert(old_pulled == 0 && old_produced == 0 && p0 == 0);
                assert(q * d + frac == 1 * st);
            }
        }
        self.phase = frac;
        ResampleStep { pulls, frac }
    }
}

/// After `n` output samples the resampler has pulled exactly `floor(n * step / den) + 1`
/// source samples: one to start, then one per whole source sample that the phase passed;
/// so the pulls are within one of `floor(n * step / den)`.
pub proof fn lemma_pull_count(r: OutputResampler)
    requires
        r.wf(),
        r.produced@ >= 1,
    ensures
        r.pulled@ == (r.produced@ * r.step) / (r.den as int) + 1,
        r.pulled@ - 1 <= (r.produced@ * r.step) / (r.den as int) <= r.pulled@ + 1,
{
    let n = r.produced@ as int;
    let s = r.step as int;
    let d = r.den as int;
    let p = r.pulled@ as int;
    vstd::arithmetic::div_mod::lemma_fundamental_div_mod_converse(n * s, d, p - 1, r.phase as int);
}

} // verus!
