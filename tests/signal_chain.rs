use pulse_fm_rds_encoder::clock::ClockTime;
use pulse_fm_rds_encoder::mpx::{supports_mpx_output, MpxClock, FIR_HALF_SIZE, FIR_SIZE};
use pulse_fm_rds_encoder::limiter::{clamped_lookahead, LookaheadWindow};
use pulse_fm_rds_encoder::rds::{RdsGenerator, SAMPLES_PER_BIT, SHAPER_RING_LEN};
use pulse_fm_rds_encoder::resample::OutputResampler;

fn noon() -> ClockTime {
    ClockTime { mjd: 60000, hour: 12, minute: 0, offset_secs: 0 }
}

#[test]
fn shaper_sends_192_samples_per_bit_and_104_bits_per_group() {
    let mut g = RdsGenerator::new();
    g.set_ct_enabled(false);
    let mut pulses = 0usize;
    let mut groups = 0usize;
    let mut last_pulse: Option<usize> = None;
    for t in 0..(2 * 19968) {
        let r = g.tick_at(&noon());
        if r.pulse.is_some() {
            if let Some(prev) = last_pulse {
                assert_eq!(t - prev, SAMPLES_PER_BIT);
            }
            last_pulse = Some(t);
            pulses += 1;
            if g.bit_pos == 1 {
                groups += 1;
            }
        }
    }
    assert_eq!(pulses, 208);
    assert_eq!(groups, 2);
}

#[test]
fn shaper_encodes_differentially() {
    let mut g = RdsGenerator::new();
    g.set_ct_enabled(false);
    let mut level = 0u8;
    for _ in 0..(19968 + 5) {
        let r = g.tick_at(&noon());
        if let Some(inverted) = r.pulse {
            let bit = g.bit_buffer[g.bit_pos - 1];
            level ^= bit;
            assert_eq!(inverted, level == 1);
        }
    }
}

#[test]
fn shaper_ring_and_carrier_indices() {
    let mut g = RdsGenerator::new();
    g.set_ct_enabled(false);
    let first = g.tick_at(&noon());
    assert_eq!(first.pulse_start, 0);
    assert_eq!(first.read_slot, SHAPER_RING_LEN - 1);
    assert_eq!(first.carrier, 0);
    let signs: Vec<i8> = (0..7).map(|_| g.tick_at(&noon()).carrier).collect();
    assert_eq!(signs, vec![1, 0, -1, 0, 1, 0, -1]);
    for _ in 0..(SAMPLES_PER_BIT - 8) {
        g.tick_at(&noon());
    }
    let second_bit = g.tick_at(&noon());
    assert!(second_bit.pulse.is_some());
    assert_eq!(second_bit.pulse_start, SAMPLES_PER_BIT);
    assert_eq!(second_bit.read_slot, SAMPLES_PER_BIT - 1);
}

#[test]
fn tick_with_live_clock_runs() {
    let mut g = RdsGenerator::new();
    let r = g.tick();
    assert!(r.pulse.is_some());
    assert_eq!(g.bit_pos, 1);
}

#[test]
fn ps_scroll_rolls_window() {
    let mut g = RdsGenerator::new();
    g.set_ct_enabled(false);
    g.enable_ps_scroll(true, "HELLO", 1000);
    assert_eq!(g.ps_scroll_interval_samples, 228000);
    for _ in 0..228000 {
        g.tick_at(&noon());
    }
    assert_eq!(&g.params.ps, b"HELLO   ");
    for _ in 0..228000 {
        g.tick_at(&noon());
    }
    assert_eq!(&g.params.ps, b"ELLO   H");
}

#[test]
fn rt_scroll_toggles_ab_with_auto() {
    let mut g = RdsGenerator::new();
    g.set_ct_enabled(false);
    g.enable_rt_scroll(true, "NEWS", 228000 * 1000);
    let ab0 = g.params.ab;
    g.tick_at(&noon());
    assert_eq!(&g.params.rt[..8], b"NEWS   N");
    assert_eq!(g.params.ab, !ab0);
}

#[test]
fn scroll_speed_is_floored() {
    assert_eq!(RdsGenerator::scroll_interval_samples(100), 2_280_000);
    assert_eq!(RdsGenerator::scroll_interval_samples(0), 2_280_000);
    assert_eq!(RdsGenerator::scroll_interval_samples(50), 2_280_000);
    assert_eq!(RdsGenerator::scroll_interval_samples(2000), 114_000);
    assert_eq!(RdsGenerator::scroll_interval_samples(u32::MAX), 1);
}

#[test]
fn scroll_disable_clears_text() {
    let mut g = RdsGenerator::new();
    g.enable_ps_scroll(true, "X", 2000);
    assert!(g.ps_scroll.is_some());
    g.enable_ps_scroll(false, "", 0);
    assert!(g.ps_scroll.is_none());
}

#[test]
fn resampler_phase_stays_below_one() {
    let mut r = OutputResampler::new(228000, 192000);
    let mut pulls = 0u64;
    for n in 1..=10000u64 {
        let s = r.next_step();
        assert!(s.frac < 192000);
        pulls += s.pulls;
        let expected = n * 228000 / 192000;
        assert!(pulls + 1 >= expected && pulls <= expected + 1);
        assert_eq!(pulls, expected + 1);
        assert_eq!(r.phase, s.frac);
    }
}

#[test]
fn resampler_first_steps() {
    let mut r = OutputResampler::new(228000, 192000);
    let a = r.next_step();
    assert_eq!((a.pulls, a.frac), (2, 36000));
    let b = r.next_step();
    assert_eq!((b.pulls, b.frac), (1, 72000));
    let c = r.next_step();
    assert_eq!((c.pulls, c.frac), (1, 108000));
}

#[test]
fn limiter_lookahead_is_clamped() {
    assert_eq!(clamped_lookahead(0), 1);
    assert_eq!(clamped_lookahead(5000), 2048);
    assert_eq!(clamped_lookahead(2049), 2048);
    assert_eq!(clamped_lookahead(2048), 2048);
    assert_eq!(clamped_lookahead(256), 256);
    let w: LookaheadWindow<f32> = LookaheadWindow::new(0);
    assert_eq!(w.lookahead, 1);
    let mut w: LookaheadWindow<f32> = LookaheadWindow::new(1);
    w.set_lookahead(9999);
    assert_eq!(w.lookahead, 2048);
}

#[test]
fn limiter_window_primes_then_releases_oldest() {
    let mut w: LookaheadWindow<i32> = LookaheadWindow::new(3);
    assert_eq!(w.push(10), None);
    assert_eq!(w.push(20), None);
    assert_eq!(w.push(30), Some(10));
    assert_eq!(w.push(40), Some(20));
    assert_eq!(w.push(50), Some(30));
    assert_eq!(w.len(), 3);
    assert_eq!((w.get(0), w.get(1), w.get(2)), (30, 40, 50));
    w.set_lookahead(2);
    assert_eq!(w.len(), 0);
    assert_eq!(w.push(1), None);
    assert_eq!(w.push(2), Some(1));
}

#[test]
fn limiter_window_of_one_passes_through() {
    let mut w: LookaheadWindow<f32> = LookaheadWindow::new(0);
    assert_eq!(w.push(0.5), Some(0.5));
    assert_eq!(w.push(-0.25), Some(-0.25));
}

#[test]
fn mpx_clock_mirrors_taps_and_cycles_carriers() {
    let mut c = MpxClock::new();
    assert_eq!(c.push_slot(), 0);
    let pairs = c.tap_pairs();
    assert_eq!(pairs.len(), FIR_HALF_SIZE);
    assert_eq!(pairs[0], (1, 0));
    assert_eq!(pairs[29], (30, 30));
    for _ in 0..(FIR_SIZE - 1) {
        c.push_slot();
    }
    assert_eq!(c.fir_index, 0);
    assert_eq!(c.tap_pairs()[0], (0, FIR_SIZE - 1));
    let phases: Vec<(usize, usize)> = (0..13).map(|_| c.carrier_phases()).collect();
    assert_eq!(phases[0], (0, 0));
    assert_eq!(phases[6], (6, 0));
    assert_eq!(phases[11], (11, 5));
    assert_eq!(phases[12], (0, 0));
}

#[test]
fn output_config_needs_float_and_192k() {
    assert!(supports_mpx_output(true, 44100, 192000));
    assert!(supports_mpx_output(true, 192000, 384000));
    assert!(!supports_mpx_output(false, 44100, 192000));
    assert!(!supports_mpx_output(true, 44100, 96000));
    assert!(!supports_mpx_output(true, 200000, 384000));
}

#[test]
fn bits_and_groups_counted_for_any_tick_count() {
    for &t in &[1usize, 191, 192, 193, 1000, 19968, 19969, 45000] {
        let mut g = RdsGenerator::new();
        g.set_ct_enabled(false);
        let mut bits = 0usize;
        let mut groups = 0usize;
        for _ in 0..t {
            if g.tick_at(&noon()).pulse.is_some() {
                bits += 1;
                if g.bit_pos == 1 {
                    groups += 1;
                }
            }
        }
        assert_eq!(bits, (t + 191) / 192, "bits after {} ticks", t);
        assert_eq!(groups, (t + 19967) / 19968, "groups after {} ticks", t);
    }
}

#[test]
fn tick_runs_split_into_calls_agree() {
    let mut a = RdsGenerator::new();
    let mut b = RdsGenerator::new();
    a.set_ct_enabled(false);
    b.set_ct_enabled(false);
    a.enable_ps_scroll(true, "SPLIT", 50_000);
    b.enable_ps_scroll(true, "SPLIT", 50_000);
    let xs: Vec<_> = (0..30000).map(|_| a.tick_at(&noon())).collect();
    let mut ys = Vec::new();
    for _ in 0..3 {
        for _ in 0..10000 {
            ys.push(b.tick_at(&noon()));
        }
    }
    assert_eq!(xs, ys);
    assert_eq!(a.params.ps, b.params.ps);
    assert_eq!(a.ps_scroll_pos, b.ps_scroll_pos);
}
