//! The RDS group scheduler and encoder, and the bit clock of the biphase shaper.
//!
//! The generator holds the RDS parameters and produces an endless sequence of 104-bit
//! groups (0A, 2A, 4A). Each 228 kHz tick it reports where the biphase pulse of a new bit
//! goes in the shaper's accumulator ring, whether it is inverted, which ring slot is read
//! out, and the sign of the 57 kHz carrier; the sample arithmetic itself is done by the
//! caller.
use vstd::prelude::*;
use vstd::string::StringSliceAdditionalSpecFns;
use crate::af::{af_stream, encode_af_list, thousandths_of, Mhz};
use crate::block::{group_bits, wire_group};
use crate::charset::{fill_rds_string, rds_code, rds_map, rds_text, RDS_SPACE};
use crate::clock::{ct_blocks, current_clock, fill_ct_group, ClockTime};

verus! {

/// Characters of the programme service name.
pub const PS_LENGTH: usize = 8;
/// Characters of the radiotext.
pub const RT_LENGTH: usize = 64;
/// Samples per RDS bit at 228 kHz (1187.5 bit/s).
pub const SAMPLES_PER_BIT: usize = 192;
/// Taps of the biphase pulse shape.
pub const BIPHASE_TAPS: usize = 576;
/// Slots of the shaper's accumulator ring: one bit of samples plus one pulse.
pub const SHAPER_RING_LEN: usize = 768;
/// The multiplex sample rate in Hz.
pub const MPX_SAMPLE_RATE: usize = 228000;

/// The complete RDS state that the groups carry.
#[derive(Clone)]
pub struct RdsParams {
    pub pi: u16,
    pub tp: bool,
    pub ta: bool,
    pub pty: u8,
    pub ms: bool,
    pub di: u8,
    pub ab: bool,
    pub ab_auto: bool,
    pub ct_enabled: bool,
    pub af_stream: Vec<u8>,
    pub ps: [u8; PS_LENGTH],
    pub rt: [u8; RT_LENGTH],
}

impl RdsParams {
    /// Field ranges that the setters keep: a 5-bit PTY, a 4-bit DI and an AF stream of
    /// whole byte pairs.
    pub open spec fn wf(&self) -> bool {
        &&& self.pty < 32
        &&& self.di < 16
        &&& self.af_stream@.len() % 2 == 0
        &&& self.af_stream@.len() <= 26
    }
}

/// A buffer of `n` spaces.
pub open spec fn spaces(n: nat) -> Seq<u8> {
    Seq::new(n, |i: int| RDS_SPACE)
}

impl Default for RdsParams {
    fn default() -> (r: Self)
        ensures
            r.pi == 0 && !r.tp && !r.ta && r.pty == 0 && r.ms && r.di == 8,
            !r.ab && r.ab_auto && r.ct_enabled,
            r.af_stream@.len() == 0,
            r.ps@ == spaces(8),
            r.rt@ == spaces(64),
            r.wf(),
    {
        let r = RdsParams {
            pi: 0,
            tp: false,
            ta: false,
            pty: 0,
            ms: true,
            di: 0b1000,
            ab: false,
            ab_auto: true,
            ct_enabled: true,
            af_stream: Vec::new(),
            ps: [RDS_SPACE; PS_LENGTH],
            rt: [RDS_SPACE; RT_LENGTH],
        };
        assert(r.ps@ =~= spaces(8));
        assert(r.rt@ =~= spaces(64));
        r
    }
}

/// The value of a flag as a bit.
pub open spec fn b16(b: bool) -> u16 {
    if b { 1 } else { 0 }
}

/// The radiotext flag after a new radiotext `next` replaces `old_rt`: it flips exactly when
/// the text changes and auto-toggle is on.
pub open spec fn ab_after(ab: bool, ab_auto: bool, old_rt: Seq<u8>, next: Seq<u8>) -> bool {
    if ab_auto && next != old_rt { !ab } else { ab }
}

/// The group cycle that `set_group_mix` builds: the 0A count floored to one.
pub open spec fn group_cycle_of(count_0a: nat, count_2a: nat, count_4a: nat) -> Seq<u8> {
    let n0 = if count_0a == 0 { 1 } else { count_0a };
    Seq::new(n0, |i: int| 0u8) + Seq::new(count_2a, |i: int| 2u8) + Seq::new(count_4a, |i: int| 4u8)
}

/// The interval between scroll steps, in samples, for a speed of `cps_milli` thousandths of
/// a character per second; speeds below 0.1 character per second count as 0.1.
pub open spec fn scroll_interval(cps_milli: u32) -> int {
    let cps = if cps_milli <= 100 { 100 } else { cps_milli as int };
    let n = 228_000_000int / cps;
    if n == 0 { 1 } else { n }
}

/// The bytes that a scrolling text cycles through: the text and three spaces.
pub open spec fn scroll_source(text: &str) -> Seq<u8> {
    text.spec_bytes() + seq![RDS_SPACE, RDS_SPACE, RDS_SPACE]
}

/// A window of `n` scroll bytes starting at `pos`, wrapping round, each mapped as a
/// character of that code point.
pub open spec fn scroll_window(src: Seq<u8>, pos: int, n: nat) -> Seq<u8> {
    Seq::new(n, |i: int| rds_code(src[(pos + i) % (src.len() as int)] as u32))
}



/// Blocks B, C, D of a 0A group: flags, PTY, the DI bit and address of PS segment
/// `seg`, two AF bytes from position `af_pos` (0xCDCD where there is no AF list), and the
/// two characters of name `ps` in the segment.
pub open spec fn basic_blocks(p: RdsParams, ps: Seq<u8>, seg: int, af_pos: int) -> Seq<u16> {
    let af = p.af_stream@;
    let di_bit = ((p.di >> ((3 - seg) as u8)) & 1) as u16;
    let b = (b16(p.tp) << 10u16) | ((p.pty as u16) << 5u16) | (b16(p.ta) << 4u16) | (b16(p.ms)
        << 3u16) | (di_bit << 2u16) | (seg as u16);
    let c = if af.len() == 0 {
        0xCDCDu16
    } else {
        ((af[af_pos] as u16) << 8u16) | (af[(af_pos + 1) % (af.len() as int)] as u16)
    };
    let d = ((ps[2 * seg] as u16) << 8u16) | (ps[2 * seg + 1] as u16);
    seq![b, c, d]
}

/// Blocks B, C, D of a 2A group: flags, PTY, the A/B flag `ab` and address of RT segment
/// `seg`, and the four characters of radiotext `rt` in the segment.
pub open spec fn text_blocks(p: RdsParams, rt: Seq<u8>, ab: bool, seg: int) -> Seq<u16> {
    let b = (2u16 << 12u16) | (b16(p.tp) << 10u16) | ((p.pty as u16) << 5u16) | (b16(ab)
        << 4u16) | (seg as u16);
    let c = ((rt[4 * seg] as u16) << 8u16) | (rt[4 * seg + 1] as u16);
    let d = ((rt[4 * seg + 2] as u16) << 8u16) | (rt[4 * seg + 3] as u16);
    seq![b, c, d]
}

/// The group type that a cycle entry stands for: 0A for 0, 2A for 2, a clock-time 4A group
/// for anything else.
pub open spec fn is_ct_type(t: u8) -> bool {
    t != 0 && t != 2
}


/// What one 228 kHz tick asks of the sample arithmetic.
#[derive(Clone, Copy, Debug, PartialEq, Eq)]
pub struct RdsTick {
    /// Where a new bit begins: whether its biphase pulse goes in inverted (the
    /// differentially encoded output is 1).
    pub pulse: Option<bool>,
    /// Ring slot where that pulse starts.
    pub pulse_start: usize,
    /// Ring slot read out, and cleared, at this tick.
    pub read_slot: usize,
    /// Sign of the 57 kHz carrier at this tick: 0, 1 or -1.
    pub carrier: i8,
}

/// The sign of the 57 kHz carrier sampled at 228 kHz, at carrier phase `p`: phases 0
/// and 2 give 0, phase 1 passes the sample, phase 3 negates it.
pub open spec fn carrier_sign(p: int) -> i8 {
    if p == 1 {
        1i8
    } else if p == 3 {
        -1i8
    } else {
        0i8
    }
}

/// The bit clock's counters (ticks into the current bit, bits sent of the current group)
/// after one tick: a new bit starts once 192 ticks of the last one went by, and a new group
/// once its 104 bits went by.
pub open spec fn clock_step(sample_count: int, bit_pos: int) -> (int, int) {
    if sample_count >= 192 {
        (1, if bit_pos >= 104 { 1 } else { bit_pos + 1 })
    } else {
        (sample_count + 1, bit_pos)
    }
}

/// The tick counter after one tick; it starts again from zero after its largest value.
pub open spec fn next_ticks(t: usize) -> usize {
    if t < usize::MAX { (t + 1) as usize } else { 0 }
}

/// `(x + 1) % m` from `x % m`.
proof fn lemma_mod_next(x: int, m: int)
    requires
        0 <= x,
        0 < m,
    ensures
        (x + 1) % m == if x % m + 1 < m { x % m + 1 } else { 0 },
{
    vstd::arithmetic::div_mod::lemma_add_mod_noop(x, 1, m);
    if m == 1 {
        assert(x % 1 == 0);
        assert((x + 1) % 1 == 0);
    } else {
        vstd::arithmetic::div_mod::lemma_small_mod(1, m as nat);
        if x % m + 1 < m {
            vstd::arithmetic::div_mod::lemma_small_mod((x % m + 1) as nat, m as nat);
        } else {
            vstd::arithmetic::div_mod::lemma_mod_self_0(m);
        }
    }
}

/// The RDS encoder: parameters, group scheduler state and the shaper's bit clock.
pub struct RdsGenerator {
    pub params: RdsParams,
    /// Next PS segment (0..4) of a 0A group.
    pub ps_state: usize,
    /// Next RT segment (0..16) of a 2A group.
    pub rt_state: usize,
    /// The UTC minute of the last clock-time group sent on a minute change.
    pub latest_minute: Option<u32>,
    /// The blocks of the group being sent.
    pub last_group: [u16; 4],
    /// The wire bits of the group being sent.
    pub bit_buffer: [u8; 104],
    /// Bits of `bit_buffer` already sent.
    pub bit_pos: usize,
    /// Ring slot where the next pulse starts.
    pub in_sample_index: usize,
    /// Ring slot read out at the next tick.
    pub out_sample_index: usize,
    pub prev_output: u8,
    pub cur_output: u8,
    /// Ticks since the current bit began.
    pub sample_count: usize,
    /// Position within the four-sample period of the 57 kHz carrier.
    pub phase: usize,
    /// Next byte of the AF stream.
    pub af_pos: usize,
    /// Bytes that the PS scroll cycles through, when it is on.
    pub ps_scroll: Option<Vec<u8>>,
    /// Bytes that the RT scroll cycles through, when it is on.
    pub rt_scroll: Option<Vec<u8>>,
    pub ps_scroll_pos: usize,
    pub rt_scroll_pos: usize,
    pub ps_scroll_interval_samples: usize,
    pub rt_scroll_interval_samples: usize,
    /// Ticks since the generator was made.
    pub sample_ticks: usize,
    /// Group types (0, 2 or 4) sent in turn.
    pub group_cycle: Vec<u8>,
    pub group_index: usize,
    /// A clock-time group every this many groups, where not zero.
    pub ct_interval_groups: usize,
    pub ct_counter: usize,
    /// Programme service names sent in turn, where `ps_alt_interval` is not zero.
    pub ps_alt_list: Vec<String>,
    pub ps_alt_index: usize,
    pub ps_alt_interval: usize,
    pub ps_alt_counter: usize,
}

impl RdsGenerator {
    /// The state invariant: counters within their ranges, a non-empty group cycle of
    /// types 0, 2 and 4, and the bit buffer holding the wire form of the current group.
    pub open spec fn wf(&self) -> bool {
        &&& self.params.wf()
        &&& self.ps_state < 4
        &&& self.rt_state < 16
        &&& self.bit_buffer@ == wire_group(self.last_group@)
        &&& self.bit_pos <= 104
        &&& self.in_sample_index < SHAPER_RING_LEN
        &&& self.out_sample_index < SHAPER_RING_LEN
        &&& self.prev_output < 2
        &&& self.cur_output < 2
        &&& 1 <= self.sample_count <= SAMPLES_PER_BIT
        &&& self.phase < 4
        &&& (self.af_pos < self.params.af_stream@.len() || (self.af_pos == 0
            && self.params.af_stream@.len() == 0))
        &&& (self.ps_scroll matches Some(t) ==> t@.len() >= 3 && self.ps_scroll_pos < t@.len())
        &&& (self.rt_scroll matches Some(t) ==> t@.len() >= 3 && self.rt_scroll_pos < t@.len())
        &&& self.ps_scroll_interval_samples >= 1
        &&& self.rt_scroll_interval_samples >= 1
        &&& self.group_cycle@.len() >= 1
        &&& self.group_index < self.group_cycle@.len()
        &&& forall|i: int|
            0 <= i < self.group_cycle@.len() ==> (#[trigger] self.group_cycle@[i] == 0
                || self.group_cycle@[i] == 2 || self.group_cycle@[i] == 4)
        &&& (self.ct_interval_groups == 0 ==> self.ct_counter == 0)
        &&& (self.ct_interval_groups > 0 ==> self.ct_counter < self.ct_interval_groups)
        &&& (self.ps_alt_interval == 0 ==> self.ps_alt_counter == 0)
        &&& (self.ps_alt_interval > 0 ==> self.ps_alt_counter < self.ps_alt_interval)
        &&& (self.ps_alt_index < self.ps_alt_list@.len() || (self.ps_alt_index == 0
            && self.ps_alt_list@.len() == 0))
    }

    /// A generator with default parameters, the cycle 0A, 0A, 0A, 0A, 2A, no scrolling,
    /// no alternate names and no clock-time interval; its first tick starts a new group.
    pub fn new() -> (r: Self)
        ensures
            r.wf(),
            r.params.pi == 0 && !r.params.tp && !r.params.ta && r.params.pty == 0,
            r.params.ms && r.params.di == 8 && !r.params.ab && r.params.ab_auto,
            r.params.ct_enabled,
            r.params.af_stream@.len() == 0,
            r.params.ps@ == spaces(8),
            r.params.rt@ == spaces(64),
            r.group_cycle@ == group_cycle_of(4, 1, 0),
            r.group_index == 0,
            r.ps_state == 0 && r.rt_state == 0,
            r.latest_minute is None,
            r.bit_pos == 104,
            r.sample_count == SAMPLES_PER_BIT,
            r.in_sample_index == 0,
            r.out_sample_index == SHAPER_RING_LEN - 1,
            r.prev_output == 0 && r.cur_output == 0 && r.phase == 0,
            r.ps_scroll is None && r.rt_scroll is None,
            r.ps_scroll_interval_samples == MPX_SAMPLE_RATE / 2,
            r.rt_scroll_interval_samples == MPX_SAMPLE_RATE / 2,
            r.sample_ticks == 0,
            r.ct_interval_groups == 0 && r.ct_counter == 0,
            r.ps_alt_list@.len() == 0 && r.ps_alt_interval == 0,
    {
        let blocks: [u16; 4] = [0, 0, 0, 0];
        let bits = group_bits(&blocks);
        let mut cycle: Vec<u8> = Vec::new();
        cycle.push(0);
        cycle.push(0);
        cycle.push(0);
        cycle.push(0);
        cycle.push(2);
        assert(cycle@ =~= group_cycle_of(4, 1, 0));
        RdsGenerator {
            params: RdsParams::default(),
            ps_state: 0,
            rt_state: 0,
            latest_minute: None,
            last_group: blocks,
            bit_buffer: bits,
            bit_pos: 104,
            in_sample_index: 0,
            out_sample_index: SHAPER_RING_LEN - 1,
            prev_output: 0,
            cur_output: 0,
            sample_count: SAMPLES_PER_BIT,
            phase: 0,
            af_pos: 0,
            ps_scroll: None,
            rt_scroll: None,
            ps_scroll_pos: 0,
            rt_scroll_pos: 0,
            ps_scroll_interval_samples: MPX_SAMPLE_RATE / 2,
            rt_scroll_interval_samples: MPX_SAMPLE_RATE / 2,
            sample_ticks: 0,
            group_cycle: cycle,
            group_index: 0,
            ct_interval_groups: 0,
            ct_counter: 0,
            ps_alt_list: Vec::new(),
            ps_alt_index: 0,
            ps_alt_interval: 0,
            ps_alt_counter: 0,
        }
    }

    /// Sets the programme identification code.
    pub fn set_pi(&mut self, pi_code: u16)
        requires
            old(self).wf(),
        ensures
            final(self).wf(),
            *final(self) == (RdsGenerator {
                params: RdsParams { pi: pi_code, ..old(self).params },
                ..*old(self)
            }),
    {
        self.params.pi = pi_code;
    }

    /// Sets the traffic-programme flag.
    pub fn set_tp(&mut self, tp: bool)
        requires
            old(self).wf(),
        ensures
            final(self).wf(),
            *final(self) == (RdsGenerator { params: RdsParams { tp, ..old(self).params }, ..*old(self) }),
    {
        self.params.tp = tp;
    }

    /// Sets the traffic-announcement flag.
    pub fn set_ta(&mut self, ta: bool)
        requires
            old(self).wf(),
        ensures
            final(self).wf(),
            *final(self) == (RdsGenerator { params: RdsParams { ta, ..old(self).params }, ..*old(self) }),
    {
        self.params.ta = ta;
    }

    /// Sets the programme type, capped at 31.
    pub fn set_pty(&mut self, pty: u8)
        requires
            old(self).wf(),
        ensures
            final(self).wf(),
            *final(self) == (RdsGenerator {
                params: RdsParams { pty: if pty > 31 { 31 } else { pty }, ..old(self).params },
                ..*old(self)
            }),
    {
        self.params.pty = if pty > 31 { 31 } else { pty };
    }

    /// Sets the music/speech flag.
    pub fn set_ms(&mut self, ms: bool)
        requires
            old(self).wf(),
        ensures
            final(self).wf(),
            *final(self) == (RdsGenerator { params: RdsParams { ms, ..old(self).params }, ..*old(self) }),
    {
        self.params.ms = ms;
    }

    /// Sets the decoder-information nibble; only its low four bits are kept.
    pub fn set_di(&mut self, di: u8)
        requires
            old(self).wf(),
        ensures
            final(self).wf(),
            *final(self) == (RdsGenerator {
                params: RdsParams { di: di & 0x0F, ..old(self).params },
                ..*old(self)
            }),
    {
        self.params.di = di & 0x0F;
        assert(di & 0x0F < 16) by (bit_vector);
    }

    /// Sets the radiotext A/B flag.
    pub fn set_rt_ab(&mut self, ab: bool)
        requires
            old(self).wf(),
        ensures
            final(self).wf(),
            *final(self) == (RdsGenerator { params: RdsParams { ab, ..old(self).params }, ..*old(self) }),
    {
        self.params.ab = ab;
    }

    /// Turns the automatic A/B toggle on radiotext changes on or off.
    pub fn set_rt_ab_auto(&mut self, ab_auto: bool)
        requires
            old(self).wf(),
        ensures
            final(self).wf(),
            *final(self) == (RdsGenerator {
                params: RdsParams { ab_auto, ..old(self).params },
                ..*old(self)
            }),
    {
        self.params.ab_auto = ab_auto;
    }

    /// Turns clock-time groups on minute changes on or off.
    pub fn set_ct_enabled(&mut self, enabled: bool)
        requires
            old(self).wf(),
        ensures
            final(self).wf(),
            *final(self) == (RdsGenerator {
                params: RdsParams { ct_enabled: enabled, ..old(self).params },
                ..*old(self)
            }),
    {
        self.params.ct_enabled = enabled;
    }

    /// Sets the programme service name: the first eight characters, mapped to the RDS
    /// character set, padded with spaces.
    pub fn set_ps(&mut self, ps: &str)
        requires
            old(self).wf(),
        ensures
            final(self).wf(),
            final(self).params.ps@ == rds_text(ps@, 8),
            *final(self) == (RdsGenerator {
                params: RdsParams { ps: final(self).params.ps, ..old(self).params },
                ..*old(self)
            }),
    {
        let mut next = [RDS_SPACE; PS_LENGTH];
        fill_rds_string(&mut next, ps);
        self.params.ps = next;
    }

    /// Replaces the radiotext with `next`; where it differs and auto-toggle is on, the A/B
    /// flag flips.
    fn apply_rt(&mut self, next: [u8; RT_LENGTH])
        requires
            old(self).wf(),
        ensures
            final(self).wf(),
            *final(self) == (RdsGenerator {
                params: RdsParams {
                    rt: next,
                    ab: ab_after(
                        old(self).params.ab,
                        old(self).params.ab_auto,
                        old(self).params.rt@,
                        next@,
                    ),
                    ..old(self).params
                },
                ..*old(self)
            }),
    {
        let mut same = true;
        let mut i: usize = 0;
        while i < RT_LENGTH
            invariant
                i <= 64,
                same <==> forall|j: int| 0 <= j < i ==> next@[j] == self.params.rt@[j],
            decreases 64 - i,
        {
            if next[i] != self.params.rt[i] {
                same = false;
            }
            i += 1;
        }
        if same {
            assert(next@ =~= self.params.rt@);
        }
        if !same {
            if self.params.ab_auto {
                self.params.ab = !self.params.ab;
            }
            self.params.rt = next;
        } else {
            proof {
                vstd::array::axiom_array_ext_equal(next, self.params.rt);
            }
            assert(next == self.params.rt);
        }
    }

    /// Sets the radiotext: the first 64 characters, mapped to the RDS character set and
    /// padded with spaces. Where the result differs from the current radiotext and
    /// auto-toggle is on, the A/B flag flips once.
    pub fn set_rt(&mut self, rt: &str)
        requires
            old(self).wf(),
        ensures
            final(self).wf(),
            final(self).params.rt@ == rds_text(rt@, 64),
            final(self).params.ab == ab_after(
                old(self).params.ab,
                old(self).params.ab_auto,
                old(self).params.rt@,
                rds_text(rt@, 64),
            ),
            *final(self) == (RdsGenerator {
                params: RdsParams {
                    rt: final(self).params.rt,
                    ab: final(self).params.ab,
                    ..old(self).params
                },
                ..*old(self)
            }),
    {
        let mut next = [RDS_SPACE; RT_LENGTH];
        fill_rds_string(&mut next, rt);
        self.apply_rt(next);
    }

    /// Sets how many 0A, 2A and 4A groups make up one cycle of the scheduler; the 0A count
    /// is floored to one, so the cycle is never empty. The cycle starts again from its
    /// beginning.
    pub fn set_group_mix(&mut self, count_0a: usize, count_2a: usize, count_4a: usize)
        requires
            old(self).wf(),
        ensures
            final(self).wf(),
            final(self).group_cycle@ == group_cycle_of(
                count_0a as nat,
                count_2a as nat,
                count_4a as nat,
            ),
            *final(self) == (RdsGenerator {
                group_cycle: final(self).group_cycle,
                group_index: 0,
                ..*old(self)
            }),
    {
        let n0: usize = if count_0a == 0 { 1 } else { count_0a };
        let n2: usize = count_2a;
        let ghost target = group_cycle_of(count_0a as nat, count_2a as nat, count_4a as nat);
        let mut cycle: Vec<u8> = Vec::new();
        let mut i: usize = 0;
        while i < n0
            invariant
                i <= n0,
                cycle@ =~= Seq::new(i as nat, |k: int| 0u8),
            decreases n0 - i,
        {
            cycle.push(0);
            i += 1;
        }
        let ghost first = cycle@;
        i = 0;
        while i < n2
            invariant
                i <= n2,
                cycle@ =~= first + Seq::new(i as nat, |k: int| 2u8),
            decreases n2 - i,
        {
            cycle.push(2);
            i += 1;
        }
        let ghost second = cycle@;
        i = 0;
        while i < count_4a
            invariant
                i <= count_4a,
                cycle@ =~= second + Seq::new(i as nat, |k: int| 4u8),
            decreases count_4a - i,
        {
            cycle.push(4);
            i += 1;
        }
        assert(cycle@ =~= target);
        self.group_cycle = cycle;
        self.group_index = 0;
    }

    /// Sends a clock-time group every `interval` groups (never where it is zero), counting
    /// from now.
    pub fn set_ct_interval_groups(&mut self, interval: usize)
        requires
            old(self).wf(),
        ensures
            final(self).wf(),
            *final(self) == (RdsGenerator {
                ct_interval_groups: interval,
                ct_counter: 0,
                ..*old(self)
            }),
    {
        self.ct_interval_groups = interval;
        self.ct_counter = 0;
    }

    /// Sets programme service names to send in turn, switching every `interval_groups`
    /// groups (never where it is zero or the list is empty).
    pub fn set_ps_alternates(&mut self, list: Vec<String>, interval_groups: usize)
        requires
            old(self).wf(),
        ensures
            final(self).wf(),
            *final(self) == (RdsGenerator {
                ps_alt_list: list,
                ps_alt_interval: interval_groups,
                ps_alt_index: 0,
                ps_alt_counter: 0,
                ..*old(self)
            }),
    {
        self.ps_alt_list = list;
        self.ps_alt_interval = interval_groups;
        self.ps_alt_index = 0;
        self.ps_alt_counter = 0;
    }

    /// Sets the alternative frequencies: the AF stream becomes their encoding and is sent
    /// again from its start.
    pub fn set_af_list_mhz(&mut self, freqs: &[Mhz])
        requires
            old(self).wf(),
        ensures
            final(self).wf(),
            final(self).params.af_stream@ == af_stream(thousandths_of(freqs@)),
            *final(self) == (RdsGenerator {
                params: RdsParams { af_stream: final(self).params.af_stream, ..old(self).params },
                af_pos: 0,
                ..*old(self)
            }),
    {
        let mut khz: Vec<u32> = Vec::new();
        let mut i: usize = 0;
        while i < freqs.len()
            invariant
                i <= freqs@.len(),
                khz@ =~= thousandths_of(freqs@).take(i as int),
            decreases freqs@.len() - i,
        {
            khz.push(freqs[i].thousandths);
            i += 1;
        }
        assert(khz@ =~= thousandths_of(freqs@));
        let stream = encode_af_list(khz.as_slice());
        proof {
            crate::af::lemma_af_stream_shape(khz@);
        }
        self.params.af_stream = stream;
        self.af_pos = 0;
    }

    /// The scroll source of `text`, as a vector.
    fn scroll_bytes(text: &str) -> (r: Vec<u8>)
        ensures
            r@ == scroll_source(text),
    {
        let bytes = text.as_bytes();
        let mut v: Vec<u8> = Vec::new();
        let mut i: usize = 0;
        while i < bytes.len()
            invariant
                i <= bytes@.len(),
                bytes@ == text.spec_bytes(),
                v@ =~= bytes@.take(i as int),
            decreases bytes@.len() - i,
        {
            v.push(bytes[i]);
            i += 1;
        }
        v.push(RDS_SPACE);
        v.push(RDS_SPACE);
        v.push(RDS_SPACE);
        assert(v@ =~= scroll_source(text));
        v
    }

    /// The number of samples between scroll steps for a speed of `cps_milli` thousandths
    /// of a character per second.
    pub fn scroll_interval_samples(cps_milli: u32) -> (r: usize)
        ensures
            r as int == scroll_interval(cps_milli),
            r >= 1,
    {
        let cps: u32 = if cps_milli <= 100 { 100 } else { cps_milli };
        let n: u32 = 228_000_000u32 / cps;
        if n == 0 { 1 } else { n as usize }
    }

    /// Turns scrolling of the programme service name on or off. While on, every
    /// `scroll_interval(cps_milli)` samples the name becomes the next eight-character window
    /// of `text` followed by three spaces.
    pub fn enable_ps_scroll(&mut self, enabled: bool, text: &str, cps_milli: u32)
        requires
            old(self).wf(),
        ensures
            final(self).wf(),
            !enabled ==> *final(self) == (RdsGenerator { ps_scroll: None, ..*old(self) }),
            enabled ==> (final(self).ps_scroll matches Some(t) && t@ == scroll_source(text)),
            enabled ==> final(self).ps_scroll_interval_samples == scroll_interval(cps_milli),
            enabled ==> *final(self) == (RdsGenerator {
                ps_scroll: final(self).ps_scroll,
                ps_scroll_pos: 0,
                ps_scroll_interval_samples: final(self).ps_scroll_interval_samples,
                ..*old(self)
            }),
    {
        if !enabled {
            self.ps_scroll = None;
            return;
        }
        self.ps_scroll = Some(Self::scroll_bytes(text));
        self.ps_scroll_pos = 0;
        self.ps_scroll_interval_samples = Self::scroll_interval_samples(cps_milli);
    }

    /// Turns scrolling of the radiotext on or off, as `enable_ps_scroll` does for the
    /// name, with a 64-character window.
    pub fn enable_rt_scroll(&mut self, enabled: bool, text: &str, cps_milli: u32)
        requires
            old(self).wf(),
        ensures
            final(self).wf(),
            !enabled ==> *final(self) == (RdsGenerator { rt_scroll: None, ..*old(self) }),
            enabled ==> (final(self).rt_scroll matches Some(t) && t@ == scroll_source(text)),
            enabled ==> final(self).rt_scroll_interval_samples == scroll_interval(cps_milli),
            enabled ==> *final(self) == (RdsGenerator {
                rt_scroll: final(self).rt_scroll,
                rt_scroll_pos: 0,
                rt_scroll_interval_samples: final(self).rt_scroll_interval_samples,
                ..*old(self)
            }),
    {
        if !enabled {
            self.rt_scroll = None;
            return;
        }
        self.rt_scroll = Some(Self::scroll_bytes(text));
        self.rt_scroll_pos = 0;
        self.rt_scroll_interval_samples = Self::scroll_interval_samples(cps_milli);
    }

    /// Loads the station defaults: PS "BOUZIDFM", a radiotext naming the station, PTY 10,
    /// PI 0x7200, music, stereo, clock time on, automatic A/B toggle.
    pub fn set_defaults_tunisia(&mut self)
        requires
            old(self).wf(),
        ensures
            final(self).wf(),
            final(self).params.ps@ == rds_text("BOUZIDFM"@, 8),
            final(self).params.rt@ == rds_text("BOUZIDFM Sidi Bouzid 98.0 MHz"@, 64),
            final(self).params.pty == 10 && final(self).params.pi == 0x7200,
            !final(self).params.tp && !final(self).params.ta && final(self).params.ms,
            final(self).params.di == 8 && !final(self).params.ab && final(self).params.ab_auto,
            final(self).params.ct_enabled,
            final(self).params.af_stream == old(self).params.af_stream,
            *final(self) == (RdsGenerator { params: final(self).params, ..*old(self) }),
    {
        self.set_ps("BOUZIDFM");
        self.set_rt("BOUZIDFM Sidi Bouzid 98.0 MHz");
        self.params.pty = 10;
        self.params.tp = false;
        self.params.ta = false;
        self.params.ms = true;
        self.params.di = 0b1000;
        self.params.ab = false;
        self.params.ab_auto = true;
        self.params.ct_enabled = true;
        self.params.pi = 0x7200;
    }

    /// Whether the next group switches to the next alternate programme service name.
    pub open spec fn alt_due(&self) -> bool {
        &&& self.ps_alt_interval > 0
        &&& self.ps_alt_list@.len() > 0
        &&& self.ps_alt_counter + 1 >= self.ps_alt_interval
    }

    /// The next alternate programme service name, mapped and padded.
    pub open spec fn alt_name(&self) -> Seq<u8> {
        rds_text(self.ps_alt_list@[(self.ps_alt_index + 1) % (self.ps_alt_list@.len() as int)]@, 8)
    }

    /// The programme service name that the next group sends.
    pub open spec fn next_ps(&self) -> Seq<u8> {
        if self.alt_due() {
            self.alt_name()
        } else {
            self.params.ps@
        }
    }

    /// The scheduler state after the next group at time `now` (the name aside): the PS
    /// segment and AF position advance after a 0A group from the cycle, the RT segment after
    /// a 2A group, the cycle position after any group from the cycle; the clock-time and
    /// alternate-name counters count the group.
    pub open spec fn scheduled(&self, now: ClockTime) -> RdsGenerator {
        let cyc = self.from_cycle(now);
        let e = self.cycle_entry();
        let afl = self.params.af_stream@.len() as int;
        RdsGenerator {
            ps_state: if cyc && e == 0 { ((self.ps_state + 1) % 4) as usize } else { self.ps_state },
            af_pos: if cyc && e == 0 && afl > 0 {
                ((self.af_pos + 2) % afl) as usize
            } else {
                self.af_pos
            },
            rt_state: if cyc && e == 2 { ((self.rt_state + 1) % 16) as usize } else { self.rt_state },
            group_index: if cyc {
                ((self.group_index + 1) % (self.group_cycle@.len() as int)) as usize
            } else {
                self.group_index
            },
            latest_minute: if !self.ct_interval_due() && self.ct_minute_due(now) {
                Some(now.minute)
            } else {
                self.latest_minute
            },
            ct_counter: if self.ct_interval_groups == 0 || self.ct_interval_due() {
                0
            } else {
                (self.ct_counter + 1) as usize
            },
            ps_alt_counter: if self.ps_alt_interval == 0 || self.ps_alt_list@.len() == 0 {
                self.ps_alt_counter
            } else if self.alt_due() {
                0
            } else {
                (self.ps_alt_counter + 1) as usize
            },
            ps_alt_index: if self.alt_due() {
                ((self.ps_alt_index + 1) % (self.ps_alt_list@.len() as int)) as usize
            } else {
                self.ps_alt_index
            },
            ..*self
        }
    }

    /// Whether two generators agree on the scheduler counters.
    pub open spec fn same_schedule(&self, o: RdsGenerator) -> bool {
        &&& self.ps_state == o.ps_state
        &&& self.rt_state == o.rt_state
        &&& self.af_pos == o.af_pos
        &&& self.group_index == o.group_index
        &&& self.latest_minute == o.latest_minute
        &&& self.ct_counter == o.ct_counter
        &&& self.ps_alt_counter == o.ps_alt_counter
        &&& self.ps_alt_index == o.ps_alt_index
    }

    /// Whether the clock-time interval falls on the next group.
    pub open spec fn ct_interval_due(&self) -> bool {
        self.ct_interval_groups > 0 && self.ct_counter + 1 >= self.ct_interval_groups
    }

    /// Whether a clock-time group is owed for a new minute at time `now`.
    pub open spec fn ct_minute_due(&self, now: ClockTime) -> bool {
        self.params.ct_enabled && self.latest_minute != Some(now.minute)
    }

    /// Whether the next group at time `now` is taken from the group cycle.
    pub open spec fn from_cycle(&self, now: ClockTime) -> bool {
        !self.ct_interval_due() && !self.ct_minute_due(now)
    }

    /// The cycle entry that the scheduler reads next.
    pub open spec fn cycle_entry(&self) -> u8 {
        self.group_cycle@[self.group_index as int]
    }

    /// Whether the next group at time `now` is a clock-time group.
    pub open spec fn next_is_ct(&self, now: ClockTime) -> bool {
        !self.from_cycle(now) || is_ct_type(self.cycle_entry())
    }

    /// The four blocks of the next group at time `now` where the name, radiotext and A/B
    /// flag are `ps`, `rt` and `ab`: block A is the PI code; a clock-time group, a 0A group
    /// (with the alternate name where one is due), or a 2A group follow as `next_group`
    /// schedules them.
    pub open spec fn blocks_with(&self, now: ClockTime, ps: Seq<u8>, rt: Seq<u8>, ab: bool) -> Seq<u16> {
        let name = if self.alt_due() { self.alt_name() } else { ps };
        seq![self.params.pi] + if self.next_is_ct(now) {
            ct_blocks(self.params.tp, self.params.pty, now)
        } else if self.cycle_entry() == 0 {
            basic_blocks(self.params, name, self.ps_state as int, self.af_pos as int)
        } else {
            text_blocks(self.params, rt, ab, self.rt_state as int)
        }
    }

    /// The blocks B, C, D of a 0A group from the PS segment, AF position and parameters.
    fn basic_group(&self, blocks: &mut [u16; 4])
        requires
            self.wf(),
        ensures
            final(blocks)@[0] == old(blocks)@[0],
            final(blocks)@.subrange(1, 4) == basic_blocks(
                self.params,
                self.params.ps@,
                self.ps_state as int,
                self.af_pos as int,
            ),
    {
        let p = &self.params;
        let seg = self.ps_state;
        let di_bit = ((p.di >> ((3 - seg) as u8)) & 1) as u16;
        let tp: u16 = if p.tp { 1 } else { 0 };
        let ta: u16 = if p.ta { 1 } else { 0 };
        let ms: u16 = if p.ms { 1 } else { 0 };
        blocks[1] = (tp << 10u16) | ((p.pty as u16) << 5u16) | (ta << 4u16) | (ms << 3u16) | (
        di_bit << 2u16) | (seg as u16);
        let len = p.af_stream.len();
        if len == 0 {
            blocks[2] = 0xCDCD;
        } else {
            let a1 = p.af_stream[self.af_pos];
            let a2 = p.af_stream[(self.af_pos + 1) % len];
            blocks[2] = ((a1 as u16) << 8u16) | (a2 as u16);
        }
        blocks[3] = ((p.ps[2 * seg] as u16) << 8u16) | (p.ps[2 * seg + 1] as u16);
        assert(blocks@.subrange(1, 4) =~= basic_blocks(
            self.params,
            self.params.ps@,
            self.ps_state as int,
            self.af_pos as int,
        ));
    }

    /// The blocks B, C, D of a 2A group from the RT segment and parameters.
    fn text_group(&self, blocks: &mut [u16; 4])
        requires
            self.wf(),
        ensures
            final(blocks)@[0] == old(blocks)@[0],
            final(blocks)@.subrange(1, 4) == text_blocks(
                self.params,
                self.params.rt@,
                self.params.ab,
                self.rt_state as int,
            ),
    {
        let p = &self.params;
        let seg = self.rt_state;
        let tp: u16 = if p.tp { 1 } else { 0 };
        let ab: u16 = if p.ab { 1 } else { 0 };
        blocks[1] = (2u16 << 12u16) | (tp << 10u16) | ((p.pty as u16) << 5u16) | (ab << 4u16) | (
        seg as u16);
        blocks[2] = ((p.rt[4 * seg] as u16) << 8u16) | (p.rt[4 * seg + 1] as u16);
        blocks[3] = ((p.rt[4 * seg + 2] as u16) << 8u16) | (p.rt[4 * seg + 3] as u16);
        assert(blocks@.subrange(1, 4) =~= text_blocks(
            self.params,
            self.params.rt@,
            self.params.ab,
            self.rt_state as int,
        ));
    }

    /// Counts one group towards the alternate-name interval and, where it falls, switches
    /// to the next alternate programme service name.
    fn switch_alternate(&mut self)
        requires
            old(self).wf(),
        ensures
            final(self).wf(),
            final(self).params.ps@ == old(self).next_ps(),
            final(self).ps_alt_counter == if old(self).ps_alt_interval == 0
                || old(self).ps_alt_list@.len() == 0 {
                old(self).ps_alt_counter as int
            } else if old(self).alt_due() {
                0
            } else {
                old(self).ps_alt_counter + 1
            },
            final(self).ps_alt_index == if old(self).alt_due() {
                (old(self).ps_alt_index + 1) % (old(self).ps_alt_list@.len() as int)
            } else {
                old(self).ps_alt_index as int
            },
            *final(self) == (RdsGenerator {
                params: RdsParams { ps: final(self).params.ps, ..old(self).params },
                ps_alt_counter: final(self).ps_alt_counter,
                ps_alt_index: final(self).ps_alt_index,
                ..*old(self)
            }),
    {
        if self.ps_alt_interval > 0 && self.ps_alt_list.len() > 0 {
            self.ps_alt_counter += 1;
            if self.ps_alt_counter >= self.ps_alt_interval {
                self.ps_alt_counter = 0;
                self.ps_alt_index = (self.ps_alt_index + 1) % self.ps_alt_list.len();
                let mut next = [RDS_SPACE; PS_LENGTH];
                fill_rds_string(&mut next, self.ps_alt_list[self.ps_alt_index].as_str());
                self.params.ps = next;
            }
        }
    }

    /// Sends the group that the cycle gives and advances the cycle.
    fn cycle_group(&mut self, blocks: &mut [u16; 4], now: &ClockTime)
        requires
            old(self).wf(),
            now.wf(),
        ensures
            final(self).wf(),
            final(blocks)@[0] == old(blocks)@[0],
            is_ct_type(old(self).cycle_entry()) ==> final(blocks)@.subrange(1, 4) == ct_blocks(
                old(self).params.tp,
                old(self).params.pty,
                *now,
            ),
            old(self).cycle_entry() == 0 ==> final(blocks)@.subrange(1, 4) == basic_blocks(
                old(self).params,
                old(self).params.ps@,
                old(self).ps_state as int,
                old(self).af_pos as int,
            ),
            old(self).cycle_entry() == 2 ==> final(blocks)@.subrange(1, 4) == text_blocks(
                old(self).params,
                old(self).params.rt@,
                old(self).params.ab,
                old(self).rt_state as int,
            ),
            final(self).ps_state == if old(self).cycle_entry() == 0 {
                (old(self).ps_state + 1) % 4
            } else {
                old(self).ps_state as int
            },
            final(self).af_pos == if old(self).cycle_entry() == 0
                && old(self).params.af_stream@.len() > 0 {
                (old(self).af_pos + 2) % (old(self).params.af_stream@.len() as int)
            } else {
                old(self).af_pos as int
            },
            final(self).rt_state == if old(self).cycle_entry() == 2 {
                (old(self).rt_state + 1) % 16
            } else {
                old(self).rt_state as int
            },
            final(self).group_index == (old(self).group_index + 1) % (
            old(self).group_cycle@.len() as int),
            *final(self) == (RdsGenerator {
                ps_state: final(self).ps_state,
                rt_state: final(self).rt_state,
                af_pos: final(self).af_pos,
                group_index: final(self).group_index,
                ..*old(self)
            }),
    {
        let g = self.group_cycle[self.group_index];
        let len = self.group_cycle.len();
        proof {
            if self.group_index + 1 < len {
                vstd::arithmetic::div_mod::lemma_small_mod((self.group_index + 1) as nat, len as nat);
            } else {
                vstd::arithmetic::div_mod::lemma_mod_self_0(len as int);
            }
        }
        self.group_index = if self.group_index + 1 < len { self.group_index + 1 } else { 0 };
        if g == 0 {
            self.basic_group(blocks);
            let len = self.params.af_stream.len();
            if len > 0 {
                self.af_pos = (self.af_pos + 2) % len;
            }
            self.ps_state = (self.ps_state + 1) % 4;
        } else if g == 2 {
            self.text_group(blocks);
            self.rt_state = (self.rt_state + 1) % 16;
        } else {
            fill_ct_group(blocks, self.params.tp, self.params.pty, now);
        }
    }

    /// Produces the next group at clock time `now`, in order of priority: the alternate
    /// programme service name is switched where its interval falls; a clock-time group is
    /// sent where the clock-time interval falls, or else where clock time is on and the
    /// minute changed since the last one; otherwise the group cycle gives the type (0A, 2A
    /// or 4A) and advances. A 0A group advances the PS segment and the AF position, a 2A
    /// group the RT segment.
    pub fn next_group(&mut self, now: &ClockTime) -> (r: [u16; 4])
        requires
            old(self).wf(),
            now.wf(),
        ensures
            final(self).wf(),
            final(self).params.ps@ == old(self).next_ps(),
            final(self).params == (RdsParams { ps: final(self).params.ps, ..old(self).params }),
            r@ == old(self).blocks_with(*now, old(self).params.ps@, old(self).params.rt@, old(self).params.ab),
            final(self).ps_state == if old(self).from_cycle(*now) && old(self).cycle_entry() == 0 {
                (old(self).ps_state + 1) % 4
            } else {
                old(self).ps_state as int
            },
            final(self).af_pos == if old(self).from_cycle(*now) && old(self).cycle_entry() == 0
                && old(self).params.af_stream@.len() > 0 {
                (old(self).af_pos + 2) % (old(self).params.af_stream@.len() as int)
            } else {
                old(self).af_pos as int
            },
            final(self).rt_state == if old(self).from_cycle(*now) && old(self).cycle_entry() == 2 {
                (old(self).rt_state + 1) % 16
            } else {
                old(self).rt_state as int
            },
            final(self).group_index == if old(self).from_cycle(*now) {
                (old(self).group_index + 1) % (old(self).group_cycle@.len() as int)
            } else {
                old(self).group_index as int
            },
            final(self).latest_minute == if !old(self).ct_interval_due() && old(self).ct_minute_due(
                *now,
            ) {
                Some(now.minute)
            } else {
                old(self).latest_minute
            },
            final(self).ct_counter == if old(self).ct_interval_groups == 0
                || old(self).ct_interval_due() {
                0
            } else {
                old(self).ct_counter + 1
            },
            final(self).ps_alt_counter == if old(self).ps_alt_interval == 0
                || old(self).ps_alt_list@.len() == 0 {
                old(self).ps_alt_counter as int
            } else if old(self).alt_due() {
                0
            } else {
                old(self).ps_alt_counter + 1
            },
            final(self).ps_alt_index == if old(self).alt_due() {
                (old(self).ps_alt_index + 1) % (old(self).ps_alt_list@.len() as int)
            } else {
                old(self).ps_alt_index as int
            },
            *final(self) == (RdsGenerator { params: final(self).params, ..old(self).scheduled(*now) }),
    {
        let mut blocks: [u16; 4] = [self.params.pi, 0, 0, 0];
        self.switch_alternate();
        let mut sent_ct = false;
        if self.ct_interval_groups > 0 {
            self.ct_counter += 1;
            if self.ct_counter >= self.ct_interval_groups {
                self.ct_counter = 0;
                fill_ct_group(&mut blocks, self.params.tp, self.params.pty, now);
                sent_ct = true;
            }
        }
        if !sent_ct {
            let minute_changed = match self.latest_minute {
                Some(m) => m != now.minute,
                None => true,
            };
            if self.params.ct_enabled && minute_changed {
                self.latest_minute = Some(now.minute);
                fill_ct_group(&mut blocks, self.params.tp, self.params.pty, now);
            } else {
                self.cycle_group(&mut blocks, now);
            }
        }
        assert(blocks@ =~= seq![blocks@[0]] + blocks@.subrange(1, 4));
        blocks
    }

    /// Whether a scroll with the given interval steps at the tick that follows `ticks`.
    pub open spec fn scroll_due(ticks: usize, interval: usize) -> bool {
        (next_ticks(ticks) as int) % (interval as int) == 0
    }

    /// Whether the PS scroll steps at the next tick.
    pub open spec fn ps_scroll_due(&self) -> bool {
        self.ps_scroll is Some && Self::scroll_due(self.sample_ticks, self.ps_scroll_interval_samples)
    }

    /// Whether the RT scroll steps at the next tick.
    pub open spec fn rt_scroll_due(&self) -> bool {
        self.rt_scroll is Some && Self::scroll_due(self.sample_ticks, self.rt_scroll_interval_samples)
    }

    /// The programme service name after the next tick's scroll step.
    pub open spec fn ps_after_scroll(&self) -> Seq<u8> {
        if self.ps_scroll_due() {
            scroll_window(self.ps_scroll->Some_0@, self.ps_scroll_pos as int, 8)
        } else {
            self.params.ps@
        }
    }

    /// The radiotext after the next tick's scroll step.
    pub open spec fn rt_after_scroll(&self) -> Seq<u8> {
        if self.rt_scroll_due() { self.rt_window() } else { self.params.rt@ }
    }

    /// The A/B flag after the next tick's scroll step.
    pub open spec fn ab_after_scroll(&self) -> bool {
        if self.rt_scroll_due() {
            ab_after(self.params.ab, self.params.ab_auto, self.params.rt@, self.rt_window())
        } else {
            self.params.ab
        }
    }

    /// The radiotext window that the next tick's scroll step puts in, if it steps.
    pub open spec fn rt_window(&self) -> Seq<u8> {
        scroll_window(self.rt_scroll->Some_0@, self.rt_scroll_pos as int, 64)
    }

    /// The `n` bytes of the scroll window of `src` at `pos`, mapped to RDS characters.
    fn window(src: &Vec<u8>, pos: usize, out: &mut [u8])
        requires
            src@.len() >= 1,
            pos < src@.len(),
        ensures
            final(out)@ == scroll_window(src@, pos as int, old(out)@.len()),
    {
        let len = src.len();
        let n = out.len();
        let mut i: usize = 0;
        let mut j: usize = pos;
        proof {
            vstd::arithmetic::div_mod::lemma_small_mod(pos as nat, len as nat);
        }
        while i < n
            invariant
                i <= n,
                n == out@.len(),
                len == src@.len(),
                len >= 1,
                j < len,
                j as int == (pos + i) % (len as int),
                forall|k: int|
                    0 <= k < i ==> out@[k] == scroll_window(src@, pos as int, n as nat)[k],
            decreases n - i,
        {
            out[i] = rds_map(src[j] as u32);
            proof {
                lemma_mod_next(pos + i, len as int);
            }
            j = if j + 1 < len { j + 1 } else { 0 };
            i += 1;
        }
        assert(out@ =~= scroll_window(src@, pos as int, n as nat));
    }

    /// Advances the tick counter and takes the due scroll steps: the PS window replaces
    /// the name, the RT window goes in as `set_rt` would put it.
    fn scroll_step(&mut self)
        requires
            old(self).wf(),
        ensures
            final(self).wf(),
            final(self).sample_ticks == next_ticks(old(self).sample_ticks),
            final(self).params.ps@ == old(self).ps_after_scroll(),
            old(self).rt_scroll_due() ==> final(self).params.rt@ == old(self).rt_window()
                && final(self).params.ab == ab_after(
                old(self).params.ab,
                old(self).params.ab_auto,
                old(self).params.rt@,
                old(self).rt_window(),
            ),
            !old(self).rt_scroll_due() ==> final(self).params.ab == old(self).params.ab
                && final(self).params.rt == old(self).params.rt,
            final(self).ps_scroll_pos == if old(self).ps_scroll_due() {
                (old(self).ps_scroll_pos + 1) % (old(self).ps_scroll->Some_0@.len() as int)
            } else {
                old(self).ps_scroll_pos as int
            },
            final(self).rt_scroll_pos == if old(self).rt_scroll_due() {
                (old(self).rt_scroll_pos + 1) % (old(self).rt_scroll->Some_0@.len() as int)
            } else {
                old(self).rt_scroll_pos as int
            },
            (!old(self).params.ab_auto ==> final(self).params.ab == old(self).params.ab),
            final(self).params == (RdsParams {
                ps: final(self).params.ps,
                rt: final(self).params.rt,
                ab: final(self).params.ab,
                ..old(self).params
            }),
            *final(self) == (RdsGenerator {
                params: final(self).params,
                sample_ticks: final(self).sample_ticks,
                ps_scroll_pos: final(self).ps_scroll_pos,
                rt_scroll_pos: final(self).rt_scroll_pos,
                ..*old(self)
            }),
    {
        self.sample_ticks = if self.sample_ticks < usize::MAX { self.sample_ticks + 1 } else { 0 };
        let ticks = self.sample_ticks;
        match &self.ps_scroll {
            Some(text) => {
                if ticks % self.ps_scroll_interval_samples == 0 {
                    let mut w = [RDS_SPACE; PS_LENGTH];
                    Self::window(text, self.ps_scroll_pos, &mut w);
                    let len = text.len();
                    proof {
                        lemma_mod_next(self.ps_scroll_pos as int, len as int);
                        vstd::arithmetic::div_mod::lemma_small_mod(self.ps_scroll_pos as nat, len as nat);
                    }
                    self.ps_scroll_pos = if self.ps_scroll_pos + 1 < len { self.ps_scroll_pos + 1 } else { 0 };
                    self.params.ps = w;
                }
            },
            None => {},
        }
        let mut next_rt: Option<[u8; RT_LENGTH]> = None;
        match &self.rt_scroll {
            Some(text) => {
                if ticks % self.rt_scroll_interval_samples == 0 {
                    let mut w = [RDS_SPACE; RT_LENGTH];
                    Self::window(text, self.rt_scroll_pos, &mut w);
                    let len = text.len();
                    proof {
                        lemma_mod_next(self.rt_scroll_pos as int, len as int);
                        vstd::arithmetic::div_mod::lemma_small_mod(self.rt_scroll_pos as nat, len as nat);
                    }
                    self.rt_scroll_pos = if self.rt_scroll_pos + 1 < len { self.rt_scroll_pos + 1 } else { 0 };
                    next_rt = Some(w);
                }
            },
            None => {},
        }
        match next_rt {
            Some(w) => self.apply_rt(w),
            None => {},
        }
    }

    /// Whether the next tick starts a new group.
    pub open spec fn group_due(&self) -> bool {
        self.sample_count >= SAMPLES_PER_BIT && self.bit_pos >= 104
    }

    /// One tick of the shaper's bit clock after the scroll step: where a bit ends the
    /// next one is taken (from a new group at time `now` where the last one is used up),
    /// differentially encoded, and its pulse placed in the ring; one ring slot is read out
    /// and the carrier phase advances.
    fn shape_step(&mut self, now: &ClockTime) -> (r: RdsTick)
        requires
            old(self).wf(),
            now.wf(),
        ensures
            final(self).wf(),
            (final(self).sample_count as int, final(self).bit_pos as int) == clock_step(
                old(self).sample_count as int,
                old(self).bit_pos as int,
            ),
            (r.pulse is Some) == (old(self).sample_count >= SAMPLES_PER_BIT),
            r.pulse is Some ==> ({
                let bit = final(self).bit_buffer@[final(self).bit_pos - 1];
                &&& final(self).prev_output == old(self).cur_output
                &&& final(self).cur_output == (old(self).cur_output ^ bit)
                &&& r.pulse == Some(final(self).cur_output == 1)
                &&& final(self).in_sample_index == (old(self).in_sample_index + SAMPLES_PER_BIT)
                    % (SHAPER_RING_LEN as int)
            }),
            r.pulse is None ==> final(self).prev_output == old(self).prev_output
                && final(self).cur_output == old(self).cur_output && final(self).in_sample_index
                == old(self).in_sample_index,
            r.pulse_start == old(self).in_sample_index,
            r.read_slot == old(self).out_sample_index,
            final(self).out_sample_index == (old(self).out_sample_index + 1) % (
            SHAPER_RING_LEN as int),
            r.carrier == carrier_sign(old(self).phase as int),
            final(self).phase == (old(self).phase + 1) % 4,
            old(self).group_due() ==> final(self).last_group@ == old(self).blocks_with(
                *now,
                old(self).params.ps@,
                old(self).params.rt@,
                old(self).params.ab,
            ),
            !old(self).group_due() ==> final(self).last_group == old(self).last_group
                && final(self).bit_buffer == old(self).bit_buffer && final(self).params
                == old(self).params && final(self).same_schedule(*old(self)),
            old(self).group_due() ==> final(self).same_schedule(old(self).scheduled(*now))
                && final(self).params.ps@ == old(self).next_ps() && final(self).params == (
            RdsParams { ps: final(self).params.ps, ..old(self).params }),
            r.pulse is None ==> final(self).prev_output == old(self).prev_output,
            *final(self) == (RdsGenerator {
                params: final(self).params,
                ps_state: final(self).ps_state,
                rt_state: final(self).rt_state,
                latest_minute: final(self).latest_minute,
                last_group: final(self).last_group,
                bit_buffer: final(self).bit_buffer,
                bit_pos: final(self).bit_pos,
                in_sample_index: final(self).in_sample_index,
                out_sample_index: final(self).out_sample_index,
                prev_output: final(self).prev_output,
                cur_output: final(self).cur_output,
                sample_count: final(self).sample_count,
                phase: final(self).phase,
                af_pos: final(self).af_pos,
                group_index: final(self).group_index,
                ct_counter: final(self).ct_counter,
                ps_alt_counter: final(self).ps_alt_counter,
                ps_alt_index: final(self).ps_alt_index,
                ..*old(self)
            }),
    {
        let pulse_start = self.in_sample_index;
        let mut pulse: Option<bool> = None;
        if self.sample_count >= SAMPLES_PER_BIT {
            if self.bit_pos >= 104 {
                let blocks = self.next_group(now);
                self.bit_buffer = group_bits(&blocks);
                self.last_group = blocks;
                self.bit_pos = 0;
            }
            let bit = self.bit_buffer[self.bit_pos];
            let prev = self.cur_output;
            self.prev_output = prev;
            assert(bit < 2) by {
                crate::block::lemma_wire_bits(self.last_group@);
            }
            assert(prev < 2 && bit < 2 ==> (prev ^ bit) < 2) by (bit_vector);
            self.cur_output = prev ^ bit;
            pulse = Some(self.cur_output == 1);
            let next_in = self.in_sample_index + SAMPLES_PER_BIT;
            self.in_sample_index = if next_in >= SHAPER_RING_LEN { next_in - SHAPER_RING_LEN } else { next_in };
            self.bit_pos += 1;
            self.sample_count = 0;
        }
        let read_slot = self.out_sample_index;
        self.out_sample_index = if self.out_sample_index + 1 < SHAPER_RING_LEN { self.out_sample_index + 1 } else { 0 };
        let carrier: i8 = if self.phase == 1 { 1 } else if self.phase == 3 { -1 } else { 0 };
        self.phase = if self.phase + 1 < 4 { self.phase + 1 } else { 0 };
        self.sample_count += 1;
        RdsTick { pulse, pulse_start, read_slot, carrier }
    }

    /// What one tick does apart from the choice of a new group: the tick counter and the
    /// due scroll steps, the bit clock, differential encoding, ring slots and carrier sign;
    /// where a new group starts, the name is the alternate one if it is due; where none
    /// starts, the group and the scheduler counters stay. Every other field stays.
    pub open spec fn tick_step(&self, post: RdsGenerator, r: RdsTick) -> bool {
        &&& post.wf()
        &&& post.sample_ticks == next_ticks(self.sample_ticks)
        &&& (post.sample_count as int, post.bit_pos as int) == clock_step(
            self.sample_count as int,
            self.bit_pos as int,
        )
        &&& (r.pulse is Some) == (self.sample_count >= SAMPLES_PER_BIT)
        &&& r.pulse is Some ==> ({
            let bit = post.bit_buffer@[post.bit_pos - 1];
            &&& post.prev_output == self.cur_output
            &&& post.cur_output == (self.cur_output ^ bit)
            &&& r.pulse == Some(post.cur_output == 1)
            &&& post.in_sample_index == (self.in_sample_index + SAMPLES_PER_BIT) % (
            SHAPER_RING_LEN as int)
        })
        &&& r.pulse is None ==> post.prev_output == self.prev_output && post.cur_output
            == self.cur_output && post.in_sample_index == self.in_sample_index
        &&& r.pulse_start == self.in_sample_index
        &&& r.read_slot == self.out_sample_index
        &&& post.out_sample_index == (self.out_sample_index + 1) % (SHAPER_RING_LEN as int)
        &&& r.carrier == carrier_sign(self.phase as int)
        &&& post.phase == (self.phase + 1) % 4
        &&& post.ps_scroll_pos == if self.ps_scroll_due() {
            (self.ps_scroll_pos + 1) % (self.ps_scroll->Some_0@.len() as int)
        } else {
            self.ps_scroll_pos as int
        }
        &&& post.rt_scroll_pos == if self.rt_scroll_due() {
            (self.rt_scroll_pos + 1) % (self.rt_scroll->Some_0@.len() as int)
        } else {
            self.rt_scroll_pos as int
        }
        &&& post.params.ps@ == if self.group_due() && self.alt_due() {
            self.alt_name()
        } else {
            self.ps_after_scroll()
        }
        &&& post.params.rt@ == self.rt_after_scroll()
        &&& post.params.ab == self.ab_after_scroll()
        &&& post.params == (RdsParams {
            ps: post.params.ps,
            rt: post.params.rt,
            ab: post.params.ab,
            ..self.params
        })
        &&& !self.group_due() ==> post.last_group == self.last_group && post.bit_buffer
            == self.bit_buffer && post.same_schedule(*self)
        &&& post == (RdsGenerator {
            params: post.params,
            ps_state: post.ps_state,
            rt_state: post.rt_state,
            latest_minute: post.latest_minute,
            last_group: post.last_group,
            bit_buffer: post.bit_buffer,
            bit_pos: post.bit_pos,
            in_sample_index: post.in_sample_index,
            out_sample_index: post.out_sample_index,
            prev_output: post.prev_output,
            cur_output: post.cur_output,
            sample_count: post.sample_count,
            phase: post.phase,
            af_pos: post.af_pos,
            ps_scroll_pos: post.ps_scroll_pos,
            rt_scroll_pos: post.rt_scroll_pos,
            sample_ticks: post.sample_ticks,
            group_index: post.group_index,
            ct_counter: post.ct_counter,
            ps_alt_counter: post.ps_alt_counter,
            ps_alt_index: post.ps_alt_index,
            ..*self
        })
    }

    /// The new group that a tick at time `now` starts: its blocks are those that
    /// `next_group` sends after the scroll step, and the scheduler counters move as
    /// `next_group` moves them.
    pub open spec fn group_step(&self, post: RdsGenerator, now: ClockTime) -> bool {
        &&& post.last_group@ == self.blocks_with(
            now,
            self.ps_after_scroll(),
            self.rt_after_scroll(),
            self.ab_after_scroll(),
        )
        &&& post.same_schedule(self.scheduled(now))
    }

    /// One 228 kHz tick at clock time `now`: the tick counter advances and due scroll
    /// steps are taken; where 192 ticks of the current bit went by the next bit starts,
    /// taken from a new group (see `next_group`) where all 104 bits of the last were
    /// sent, differentially encoded; one ring slot is read out and the carrier phase
    /// advances.
    pub fn tick_at(&mut self, now: &ClockTime) -> (r: RdsTick)
        requires
            old(self).wf(),
            now.wf(),
        ensures
            old(self).tick_step(*final(self), r),
            old(self).group_due() ==> old(self).group_step(*final(self), *now),
            !old(self).params.ab_auto ==> final(self).params.ab == old(self).params.ab,
    {
        self.scroll_step();
        self.shape_step(now)
    }

    /// One 228 kHz tick, as `tick_at` at the current clock time; the clock is read only
    /// where the tick starts a new group.
    pub fn tick(&mut self) -> (r: RdsTick)
        requires
            old(self).wf(),
        ensures
            old(self).tick_step(*final(self), r),
            old(self).group_due() ==> exists|now: ClockTime|
                now.wf() && #[trigger] old(self).group_step(*final(self), now),
            !old(self).params.ab_auto ==> final(self).params.ab == old(self).params.ab,
    {
        let now = if self.sample_count >= SAMPLES_PER_BIT && self.bit_pos >= 104 {
            current_clock()
        } else {
            ClockTime { mjd: crate::clock::MJD_2000_01_01, hour: 0, minute: 0, offset_secs: 0 }
        };
        self.tick_at(&now)
    }

}


/// After `set_ps(s)` the name holds all eight bytes: the mapped characters of `s`, and a
/// space (0x20) in every byte that `s` does not supply.
pub proof fn lemma_ps_fully_padded(s: Seq<char>)
    ensures
        rds_text(s, 8).len() == 8,
        forall|i: int| 0 <= i < 8 && i < s.len() ==> rds_text(s, 8)[i] == rds_code(s[i] as u32),
        forall|i: int| s.len() <= i < 8 ==> rds_text(s, 8)[i] == 0x20,
{
}

/// The A/B bit of a 2A group is the A/B flag it is built with, whatever its segment and
/// text: so while nothing sets the flag (`next_group` leaves it alone, and so does
/// `tick_at` when auto-toggle is off), every 2A group carries the same bit.
pub proof fn lemma_ab_bit_steady(p: RdsParams, rt: Seq<u8>, ab: bool, seg: int)
    requires
        p.wf(),
        0 <= seg < 16,
    ensures
        (text_blocks(p, rt, ab, seg)[0] >> 4u16) & 1 == b16(ab),
{
    let tp = b16(p.tp);
    let abit = b16(ab);
    let pty = p.pty as u16;
    let sg = seg as u16;
    assert(((((2u16 << 12u16) | (tp << 10u16) | (pty << 5u16) | (abit << 4u16) | sg) >> 4u16) & 1)
        == abit) by (bit_vector)
        requires
            tp < 2,
            abit < 2,
            pty < 32,
            sg < 16,
    ;
}

/// With auto-toggle on, taking a new radiotext flips the A/B flag exactly when the mapped
/// text differs from the current one; taking the same text again right after leaves it.
pub proof fn lemma_ab_flips_once(ab: bool, old_rt: Seq<u8>, next: Seq<u8>)
    ensures
        (ab_after(ab, true, old_rt, next) != ab) <==> (next != old_rt),
        ab_after(ab_after(ab, true, old_rt, next), true, next, next) == ab_after(
            ab,
            true,
            old_rt,
            next,
        ),
{
}

/// The bit clock's counters and the numbers of bits started and groups started over `n`
/// ticks from counters `(sample_count, bit_pos)`.
pub open spec fn bit_clock_run(sample_count: int, bit_pos: int, n: nat) -> (int, int, nat, nat)
    decreases n,
{
    if n == 0 {
        (sample_count, bit_pos, 0, 0)
    } else {
        let (c1, b1) = clock_step(sample_count, bit_pos);
        let r = bit_clock_run(c1, b1, (n - 1) as nat);
        (
            r.0,
            r.1,
            r.2 + if sample_count >= 192 { 1nat } else { 0nat },
            r.3 + if sample_count >= 192 && bit_pos >= 104 { 1nat } else { 0nat },
        )
    }
}

/// Running the bit clock `a + b` ticks is running it `a` ticks, then `b`.
proof fn lemma_bit_clock_split(c: int, b: int, x: nat, y: nat)
    ensures
        ({
            let r1 = bit_clock_run(c, b, x);
            let r2 = bit_clock_run(r1.0, r1.1, y);
            bit_clock_run(c, b, x + y) == (r2.0, r2.1, r1.2 + r2.2, r1.3 + r2.3)
        }),
    decreases x,
{
    if x > 0 {
        let (c1, b1) = clock_step(c, b);
        lemma_bit_clock_split(c1, b1, (x - 1) as nat, y);
        assert((x + y - 1) as nat == ((x - 1) as nat + y) as nat);
    }
}

/// Within a bit, `k` ticks from tick count `c` only count up.
proof fn lemma_bit_clock_within_bit(c: int, b: int, k: nat)
    requires
        1 <= c,
        c + k <= 192,
    ensures
        bit_clock_run(c, b, k) == (c + k, b, 0nat, 0nat),
    decreases k,
{
    if k > 0 {
        lemma_bit_clock_within_bit(c + 1, b, (k - 1) as nat);
    }
}

/// One whole bit: from the end of a bit, 192 ticks start exactly one bit, and a group
/// where the last group's bits were all sent.
proof fn lemma_bit_clock_one_bit(b: int)
    ensures
        bit_clock_run(192, b, 192) == (
            192int,
            if b >= 104 { 1int } else { b + 1 },
            1nat,
            if b >= 104 { 1nat } else { 0nat },
        ),
{
    let b1 = if b >= 104 { 1int } else { b + 1 };
    lemma_bit_clock_within_bit(1, b1, 191);
    assert(bit_clock_run(192, b, 192) == ({
        let r = bit_clock_run(1, b1, 191);
        (r.0, r.1, r.2 + 1nat, r.3 + if b >= 104 { 1nat } else { 0nat })
    }));
}

/// From the end of a group, `192 * j` ticks (`1 <= j <= 104`) start `j` bits and one group.
proof fn lemma_bit_clock_bits(j: nat)
    requires
        1 <= j <= 104,
    ensures
        bit_clock_run(192, 104, 192 * j) == (192int, j as int, j, 1nat),
    decreases j,
{
    if j == 1 {
        lemma_bit_clock_one_bit(104);
    } else {
        let i = (j - 1) as nat;
        lemma_bit_clock_bits(i);
        lemma_bit_clock_split(192, 104, 192 * i, 192);
        lemma_bit_clock_one_bit(i as int);
        assert(192 * i + 192 == 192 * j);
    }
}

/// The shaper sends 192 samples per bit and 104 bits per group: from the end of a group
/// (as `RdsGenerator::new` leaves it), every run of 19968 ticks starts exactly 104 bits,
/// one every 192 ticks, and exactly one group, and ends where it began.
pub proof fn lemma_samples_per_group()
    ensures
        bit_clock_run(192, 104, 192) == (192int, 1int, 1nat, 1nat),
        forall|j: nat| 1 <= j <= 104 ==> #[trigger] bit_clock_run(192, 104, 192 * j) == (
            192int,
            j as int,
            j,
            1nat,
        ),
        bit_clock_run(192, 104, 19968) == (192int, 104int, 104nat, 1nat),
{
    lemma_bit_clock_bits(1);
    assert forall|j: nat| 1 <= j <= 104 implies #[trigger] bit_clock_run(192, 104, 192 * j) == (
        192int,
        j as int,
        j,
        1nat,
    ) by {
        lemma_bit_clock_bits(j);
    }
    lemma_bit_clock_bits(104);
}


/// The bit position after `k` whole bits from the end of a group.
pub open spec fn bit_pos_after(k: nat) -> int {
    if k == 0 {
        104
    } else {
        (k - 1) % 104 + 1
    }
}

/// Counting bits into groups: the `k`-th bit opens a group exactly when `k % 104 == 0`.
proof fn lemma_group_count_step(i: nat)
    ensures
        (bit_pos_after(i) >= 104) == (i % 104 == 0),
        bit_pos_after(i + 1) == (if bit_pos_after(i) >= 104 { 1 } else { bit_pos_after(i) + 1 }),
        (i + 104) / 104 == (i + 103) / 104 + if i % 104 == 0 { 1int } else { 0int },
{
    if i > 0 {
        lemma_mod_next(i - 1, 104);
    }
    let q = i as int / 104;
    let r = i as int % 104;
    vstd::arithmetic::div_mod::lemma_fundamental_div_mod(i as int, 104);
    vstd::arithmetic::div_mod::lemma_fundamental_div_mod_converse(i as int + 104, 104, q + 1, r);
    if r == 0 {
        vstd::arithmetic::div_mod::lemma_fundamental_div_mod_converse(i as int + 103, 104, q, 103);
    } else {
        vstd::arithmetic::div_mod::lemma_fundamental_div_mod_converse(i as int + 103, 104, q + 1, r - 1);
    }
}

/// `192 * k` ticks from the end of a group start `k` bits and `ceil(k / 104)` groups.
proof fn lemma_bit_clock_whole_bits(k: nat)
    ensures
        bit_clock_run(192, 104, 192 * k) == (
            192int,
            bit_pos_after(k),
            k,
            ((k + 103) / 104) as nat,
        ),
    decreases k,
{
    if k > 0 {
        let i = (k - 1) as nat;
        lemma_bit_clock_whole_bits(i);
        lemma_bit_clock_split(192, 104, 192 * i, 192);
        lemma_bit_clock_one_bit(bit_pos_after(i));
        lemma_group_count_step(i);
        assert(192 * i + 192 == 192 * k);
        assert(i + 1 == k);
    }
}

/// From the end of a group (as `RdsGenerator::new` leaves it), any `t` ticks start exactly
/// `ceil(t / 192)` bits and `ceil(t / 19968)` groups: bit `k` starts at tick `192 * k` and
/// group `j` at tick `19968 * j`.
pub proof fn lemma_bits_and_groups_in_ticks(t: nat)
    ensures
        bit_clock_run(192, 104, t).2 == (t + 191) / 192,
        bit_clock_run(192, 104, t).3 == (t + 19967) / 19968,
{
    if t > 0 {
        let k = ((t - 1) / 192) as nat;
        let rem = (t - 192 * k) as nat;
        vstd::arithmetic::div_mod::lemma_fundamental_div_mod((t - 1) as int, 192);
        assert(1 <= rem <= 192);
        lemma_bit_clock_whole_bits(k);
        lemma_bit_clock_split(192, 104, 192 * k, rem);
        let b = bit_pos_after(k);
        let b1 = if b >= 104 { 1int } else { b + 1 };
        lemma_bit_clock_within_bit(1, b1, (rem - 1) as nat);
        assert(bit_clock_run(192, b, rem) == ({
            let r = bit_clock_run(1, b1, (rem - 1) as nat);
            (r.0, r.1, r.2 + 1nat, r.3 + if b >= 104 { 1nat } else { 0nat })
        }));
        lemma_group_count_step(k);
        vstd::arithmetic::div_mod::lemma_fundamental_div_mod_converse(
            t as int + 191,
            192,
            k as int + 1,
            rem as int - 1,
        );
        vstd::arithmetic::div_mod::lemma_fundamental_div_mod_converse(
            t as int + 19967,
            192,
            k as int + 104,
            rem as int - 1,
        );
        vstd::arithmetic::div_mod::lemma_div_denominator((t + 19967) as int, 192, 104);
    }
}

} // verus!
