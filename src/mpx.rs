//! Index bookkeeping of the MPX composer: the ring of the symmetric FIR low-pass (59 taps,
//! applied as 30 kernel taps on sums of mirrored delay-line slots) and the phases of the
//! 19 kHz pilot and 38 kHz subcarrier tables (12 and 6 entries at 228 kHz).
use vstd::prelude::*;

verus! {

/// Kernel taps of one half of the symmetric low-pass, the centre tap last.
pub const FIR_HALF_SIZE: usize = 30;
/// Slots of the delay line.
pub const FIR_SIZE: usize = 59;
/// Entries of the 19 kHz pilot table.
pub const PILOT_TABLE_LEN: usize = 12;
/// Entries of the 38 kHz subcarrier table.
pub const SUBCARRIER_TABLE_LEN: usize = 6;

/// The rate of the device output, in Hz.
pub const OUTPUT_SAMPLE_RATE: u32 = 192000;

/// Whether an output configuration can carry the composite: 32-bit float samples and a
/// rate range that holds 192 kHz.
pub fn supports_mpx_output(is_f32: bool, min_rate: u32, max_rate: u32) -> (r: bool)
    ensures
        r == (is_f32 && min_rate <= OUTPUT_SAMPLE_RATE <= max_rate),
{
    is_f32 && min_rate <= OUTPUT_SAMPLE_RATE && OUTPUT_SAMPLE_RATE <= max_rate
}

/// The delay-line slot and carrier table positions of the composer.
pub struct MpxClock {
    /// Slot that the next input sample goes into.
    pub fir_index: usize,
    pub phase_19: usize,
    pub phase_38: usize,
}

impl MpxClock {
    pub open spec fn wf(&self) -> bool {
        &&& self.fir_index < FIR_SIZE
        &&& self.phase_19 < PILOT_TABLE_LEN
        &&& self.phase_38 < SUBCARRIER_TABLE_LEN
    }

    /// All positions at zero.
    pub fn new() -> (r: Self)
        ensures
            r.wf(),
            r.fir_index == 0 && r.phase_19 == 0 && r.phase_38 == 0,
    {
        MpxClock { fir_index: 0, phase_19: 0, phase_38: 0 }
    }

    /// The slot for the next input sample; the delay line advances past it.
    pub fn push_slot(&mut self) -> (r: usize)
        requires
            old(self).wf(),
        ensures
            final(self).wf(),
            r == old(self).fir_index,
            final(self).fir_index == (old(self).fir_index + 1) % (FIR_SIZE as int),
            final(self).phase_19 == old(self).phase_19,
            final(self).phase_38 == old(self).phase_38,
    {
        let r = self.fir_index;
        self.fir_index = if self.fir_index + 1 < FIR_SIZE { self.fir_index + 1 } else { 0 };
        r
    }

    /// The slot pairs that kernel tap `fi` multiplies, for `fi` in `0..30`: walking up from
    /// the current slot and down from the slot before it, so that tap 29 (the centre) pairs
    /// the newest input with itself.
    pub fn tap_pairs(&self) -> (r: Vec<(usize, usize)>)
        requires
            self.wf(),
        ensures
            r@.len() == FIR_HALF_SIZE,
            forall|fi: int|
                0 <= fi < FIR_HALF_SIZE ==> #[trigger] r@[fi] == (
                    ((self.fir_index + fi) % (FIR_SIZE as int)) as usize,
                    ((self.fir_index + FIR_SIZE - 1 - fi) % (FIR_SIZE as int)) as usize,
                ),
    {
        let mut r: Vec<(usize, usize)> = Vec::new();
        let mut fi: usize = 0;
        while fi < FIR_HALF_SIZE
            invariant
                fi <= FIR_HALF_SIZE,
                self.wf(),
                r@.len() == fi,
                forall|k: int|
                    0 <= k < fi ==> #[trigger] r@[k] == (
                        ((self.fir_index + k) % (FIR_SIZE as int)) as usize,
                        ((self.fir_index + FIR_SIZE - 1 - k) % (FIR_SIZE as int)) as usize,
                    ),
            decreases FIR_HALF_SIZE - fi,
        {
            let up = (self.fir_index + fi) % FIR_SIZE;
            let down = (self.fir_index + FIR_SIZE - 1 - fi) % FIR_SIZE;
            r.push((up, down));
            fi += 1;
        }
        r
    }

    /// The pilot and subcarrier table positions for this sample; both advance.
    pub fn carrier_phases(&mut self) -> (r: (usize, usize))
        requires
            old(self).wf(),
        ensures
            final(self).wf(),
            r == (old(self).phase_19, old(self).phase_38),
            final(self).phase_19 == (old(self).phase_19 + 1) % (PILOT_TABLE_LEN as int),
            final(self).phase_38 == (old(self).phase_38 + 1) % (SUBCARRIER_TABLE_LEN as int),
            final(self).fir_index == old(self).fir_index,
    {
        let r = (self.phase_19, self.phase_38);
        self.phase_19 = if self.phase_19 + 1 < PILOT_TABLE_LEN { self.phase_19 + 1 } else { 0 };
        self.phase_38 = if self.phase_38 + 1 < SUBCARRIER_TABLE_LEN { self.phase_38 + 1 } else { 0 };
        r
    }
}

} // verus!
