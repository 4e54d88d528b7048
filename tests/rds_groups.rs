use pulse_fm_rds_encoder::af::{af_code_of, encode_af_list, Mhz};
use pulse_fm_rds_encoder::block::{crc, group_bits, offset_word};
use pulse_fm_rds_encoder::charset::{fill_rds_string, rds_map};
use pulse_fm_rds_encoder::clock::{clock_from, current_clock, fill_ct_group, ClockTime, UtcStamp};
use pulse_fm_rds_encoder::rds::{RdsGenerator, RdsParams};

fn clock(minute: u32) -> ClockTime {
    ClockTime { mjd: 60000, hour: 13, minute, offset_secs: 3600 }
}

fn quiet_generator() -> RdsGenerator {
    let mut g = RdsGenerator::new();
    g.set_ct_enabled(false);
    g
}

fn bits_to_word(bits: &[u8]) -> u16 {
    bits.iter().fold(0u16, |acc, b| (acc << 1) | (*b as u16))
}

#[test]
fn fill_rds_string_pads_with_spaces() {
    let mut buf = [0u8; 8];
    fill_rds_string(&mut buf, "TEST");
    assert_eq!(buf, [b'T', b'E', b'S', b'T', 0x20, 0x20, 0x20, 0x20]);
}

#[test]
fn fill_rds_string_truncates_long_text() {
    let mut buf = [0u8; 4];
    fill_rds_string(&mut buf, "ABCDEFG");
    assert_eq!(buf, [b'A', b'B', b'C', b'D']);
}

#[test]
fn fill_rds_string_maps_accents_and_unknowns() {
    let mut buf = [0u8; 5];
    fill_rds_string(&mut buf, "é$¤~ß");
    assert_eq!(buf, [0x82, 0xAB, 0x24, 0x20, 0x8D]);
}

#[test]
fn rds_map_basic_latin_is_identity() {
    assert_eq!(rds_map('A' as u32), b'A');
    assert_eq!(rds_map('z' as u32), b'z');
    assert_eq!(rds_map('0' as u32), b'0');
    assert_eq!(rds_map(0x4E2D), 0x20);
}

#[test]
fn crc_known_values() {
    assert_eq!(crc(0x0000), 0x0000);
    assert_eq!(crc(0x7200), 0x3FB);
    assert_eq!(crc(0x8000) < 0x400, true);
    assert_eq!(crc(0x1234), 0x096);
    assert_eq!((crc(0x7200) ^ offset_word(0)) & 0x3FF, 0x307);
    assert_eq!((crc(0x0000) ^ offset_word(0)) & 0x3FF, 0x0FC);
    assert_eq!((crc(0xCDCD) ^ offset_word(2)) & 0x3FF, 0x2B3);
}

#[test]
fn group_bits_carry_blocks_and_checkwords() {
    let blocks = [0x7200u16, 0x1234, 0xCDCD, 0x5445];
    let bits = group_bits(&blocks);
    assert_eq!(bits.len(), 104);
    for i in 0..4 {
        let info = bits_to_word(&bits[26 * i..26 * i + 16]);
        let check = bits_to_word(&bits[26 * i + 16..26 * i + 26]);
        assert_eq!(info, blocks[i]);
        assert_eq!(check, (crc(info) ^ offset_word(i)) & 0x3FF);
    }
    assert_eq!(bits_to_word(&bits[16..26]), 0x307);
    assert_eq!(bits_to_word(&bits[42..52]), 0x10E);
    assert_eq!(bits_to_word(&bits[94..104]), 0x1FB);
}

#[test]
fn every_emitted_group_has_valid_checkwords() {
    let mut g = RdsGenerator::new();
    g.set_ps("CHECK");
    g.set_rt("Radiotext");
    g.set_af_list_mhz(&[Mhz { thousandths: 98000 }, Mhz { thousandths: 101500 }]);
    for k in 0..40u32 {
        let blocks = g.next_group(&clock(k / 10));
        let bits = group_bits(&blocks);
        for i in 0..4 {
            let info = bits_to_word(&bits[26 * i..26 * i + 16]);
            let check = bits_to_word(&bits[26 * i + 16..26 * i + 26]);
            assert_eq!(check, (crc(info) ^ offset_word(i)) & 0x3FF);
        }
    }
}

#[test]
fn params_default_values() {
    let p = RdsParams::default();
    assert_eq!(p.pi, 0);
    assert!(!p.tp && !p.ta && p.ms && !p.ab && p.ab_auto && p.ct_enabled);
    assert_eq!(p.di, 8);
    assert_eq!(p.pty, 0);
    assert!(p.af_stream.is_empty());
    assert_eq!(p.ps, [0x20; 8]);
    assert_eq!(p.rt, [0x20; 64]);
}

#[test]
fn ps_test_four_basic_groups() {
    let mut g = quiet_generator();
    g.set_ps("TEST");
    g.set_pi(0x7200);
    let expected_d = [0x5445u16, 0x5354, 0x2020, 0x2020];
    for k in 0..4 {
        let blocks = g.next_group(&clock(0));
        assert_eq!(blocks[0], 0x7200);
        assert_eq!(blocks[1] >> 12, 0, "group type 0A");
        assert_eq!(blocks[1] & 0x3, k as u16, "PS segment");
        assert_eq!(blocks[2], 0xCDCD);
        assert_eq!(blocks[3], expected_d[k]);
    }
}

#[test]
fn basic_group_flags_and_di_bits() {
    let mut g = quiet_generator();
    g.set_tp(true);
    g.set_ta(true);
    g.set_ms(false);
    g.set_pty(10);
    g.set_di(0b1010);
    let mut di = 0u16;
    for _ in 0..4 {
        let b = g.next_group(&clock(0))[1];
        assert_eq!(b & (1 << 10), 1 << 10);
        assert_eq!(b & (1 << 4), 1 << 4);
        assert_eq!(b & (1 << 3), 0);
        assert_eq!((b >> 5) & 0x1F, 10);
        di = (di << 1) | ((b >> 2) & 1);
    }
    assert_eq!(di, 0b1010);
}

#[test]
fn setters_clamp_pty_and_di() {
    let mut g = RdsGenerator::new();
    g.set_pty(200);
    assert_eq!(g.params.pty, 31);
    g.set_di(0xF3);
    assert_eq!(g.params.di, 0x3);
}

#[test]
fn set_ps_short_text_is_padded() {
    let mut g = RdsGenerator::new();
    g.set_ps("AB");
    assert_eq!(g.params.ps, [b'A', b'B', 0x20, 0x20, 0x20, 0x20, 0x20, 0x20]);
    g.set_ps("");
    assert_eq!(g.params.ps, [0x20; 8]);
}

#[test]
fn af_list_scenario_drops_invalid_and_duplicates() {
    let stream = encode_af_list(&[98000, 99800, 98000, 200000]);
    assert_eq!(stream, vec![0xE2, 105, 123, 0x00]);
}

#[test]
fn af_list_boundaries() {
    assert_eq!(af_code_of(87600), Some(1));
    assert_eq!(af_code_of(107900), Some(204));
    assert_eq!(af_code_of(87500), None);
    assert_eq!(af_code_of(108000), None);
    assert_eq!(af_code_of(98000), Some(105));
}

#[test]
fn af_list_sorted_even_length() {
    let stream = encode_af_list(&[107900, 87600, 88000]);
    assert_eq!(stream, vec![0xE3, 1, 5, 204]);
    assert!(encode_af_list(&[]).is_empty());
    assert!(encode_af_list(&[87500, 108000]).is_empty());
}

#[test]
fn af_list_caps_at_twenty_five_codes() {
    let freqs: Vec<u32> = (0..40).map(|i| 87600 + 100 * i).collect();
    let stream = encode_af_list(&freqs);
    assert_eq!(stream[0], 0xE0 + 25);
    assert_eq!(stream.len(), 26);
    assert_eq!(&stream[1..26], &(1..=25).collect::<Vec<u8>>()[..]);
    assert_eq!(stream[25], 25);
}

#[test]
fn af_stream_in_block_c() {
    let mut g = quiet_generator();
    g.set_af_list_mhz(&[Mhz { thousandths: 98000 }, Mhz { thousandths: 99800 }]);
    assert_eq!(g.params.af_stream, vec![0xE2, 105, 123, 0x00]);
    let c1 = g.next_group(&clock(0))[2];
    let c2 = g.next_group(&clock(0))[2];
    let c3 = g.next_group(&clock(0))[2];
    assert_eq!(c1, 0xE269);
    assert_eq!(c2, 0x7B00);
    assert_eq!(c3, 0xE269);
}

#[test]
fn group_mix_four_one_zero_over_twenty_five_groups() {
    let mut g = quiet_generator();
    g.set_group_mix(4, 1, 0);
    let mut counts = [0usize; 16];
    for _ in 0..25 {
        let b = g.next_group(&clock(0));
        counts[(b[1] >> 12) as usize] += 1;
    }
    assert_eq!(counts[0], 20);
    assert_eq!(counts[2], 5);
    assert_eq!(counts[4], 0);
}

#[test]
fn group_mix_floors_zero_counts() {
    let mut g = quiet_generator();
    g.set_group_mix(0, 0, 0);
    assert_eq!(g.group_cycle, vec![0]);
    g.set_group_mix(1, 0, 0);
    assert_eq!(g.group_cycle, vec![0]);
    g.set_group_mix(0, 3, 2);
    assert_eq!(g.group_cycle, vec![0, 2, 2, 2, 4, 4]);
    g.set_group_mix(2, 0, 1);
    assert_eq!(g.group_cycle, vec![0, 0, 4]);
    g.set_group_mix(2, 1, 1);
    let types: Vec<u16> = (0..4).map(|_| g.next_group(&clock(0))[1] >> 12).collect();
    assert_eq!(types, vec![0, 0, 2, 4]);
}

#[test]
fn ct_interval_every_third_group() {
    let mut g = RdsGenerator::new();
    g.set_ct_interval_groups(3);
    for k in 1..=30u32 {
        let b = g.next_group(&clock(7));
        if k % 3 == 0 {
            assert_eq!(b[1] >> 12, 4, "group {} must be 4A", k);
        }
    }
}

#[test]
fn ct_sent_once_per_minute() {
    let mut g = RdsGenerator::new();
    let first = g.next_group(&clock(10));
    assert_eq!(first[1] >> 12, 4);
    for _ in 0..10 {
        assert_ne!(g.next_group(&clock(10))[1] >> 12, 4);
    }
    assert_eq!(g.next_group(&clock(11))[1] >> 12, 4);
}

#[test]
fn ct_group_packing() {
    let mut blocks = [0x7200u16, 0, 0, 0];
    let t = ClockTime { mjd: 60000, hour: 13, minute: 45, offset_secs: 3600 };
    fill_ct_group(&mut blocks, false, 10, &t);
    assert_eq!(blocks, [0x7200, 0x4141, 0xD4C0, 0xDB42]);
    let t = ClockTime { mjd: 60000, hour: 13, minute: 45, offset_secs: -5400 };
    fill_ct_group(&mut blocks, false, 10, &t);
    assert_eq!(blocks[3], 0xDB63);
}

#[test]
fn current_clock_is_a_plausible_date() {
    let t = current_clock();
    assert!(t.hour < 24 && t.minute < 60);
    assert!(t.offset_secs.abs() < 86400);
    assert!(t.mjd > 58849, "dates before 2020 are not expected");
}

#[test]
fn rt_auto_toggle_flips_once() {
    let mut g = RdsGenerator::new();
    g.set_rt_ab_auto(true);
    let ab0 = g.params.ab;
    g.set_rt("A");
    assert_eq!(g.params.ab, !ab0);
    g.set_rt("A");
    assert_eq!(g.params.ab, !ab0);
    g.set_rt("B");
    assert_eq!(g.params.ab, ab0);
}

#[test]
fn rt_without_auto_toggle_keeps_ab() {
    let mut g = quiet_generator();
    g.set_rt_ab_auto(false);
    g.set_rt_ab(true);
    g.set_rt("Some text");
    assert!(g.params.ab);
    g.set_group_mix(1, 1, 0);
    for _ in 0..40 {
        let b = g.next_group(&clock(0));
        if b[1] >> 12 == 2 {
            assert_eq!((b[1] >> 4) & 1, 1);
        }
    }
}

#[test]
fn text_groups_spell_radiotext() {
    let mut g = quiet_generator();
    g.set_group_mix(1, 1, 0);
    g.set_rt("Hello RDS world");
    let mut text = Vec::new();
    for _ in 0..8 {
        let b = g.next_group(&clock(0));
        if b[1] >> 12 == 2 {
            assert_eq!(b[1] & 0xF, (text.len() / 4) as u16);
            text.extend_from_slice(&b[2].to_be_bytes());
            text.extend_from_slice(&b[3].to_be_bytes());
        }
    }
    assert_eq!(&text[..16], b"Hello RDS world ");
}

#[test]
fn ps_alternates_switch_on_interval() {
    let mut g = quiet_generator();
    g.set_ps("MAIN");
    g.set_ps_alternates(vec!["ONE".to_string(), "TWO".to_string()], 2);
    g.next_group(&clock(0));
    assert_eq!(&g.params.ps[..4], b"MAIN");
    g.next_group(&clock(0));
    assert_eq!(&g.params.ps[..4], b"TWO ");
    g.next_group(&clock(0));
    g.next_group(&clock(0));
    assert_eq!(&g.params.ps[..4], b"ONE ");
}

#[test]
fn defaults_for_station() {
    let mut g = RdsGenerator::new();
    g.set_defaults_tunisia();
    assert_eq!(&g.params.ps, b"BOUZIDFM");
    assert_eq!(&g.params.rt[..10], b"BOUZIDFM S");
    assert_eq!(g.params.pi, 0x7200);
    assert_eq!(g.params.pty, 10);
}

#[test]
fn ct_group_masks_high_fields() {
    let mut blocks = [0u16; 4];
    let t = ClockTime { mjd: 0x7_8000, hour: 0, minute: 0, offset_secs: 33 * 1800 };
    fill_ct_group(&mut blocks, false, 0, &t);
    assert_eq!(blocks[1], 0x4003);
    assert_eq!(blocks[3], 33 & 0x1F);
}

#[test]
fn clock_from_takes_day_count_or_default() {
    let stamp = UtcStamp { year: 2026, month: 10, day: 19, hour: 6, minute: 54 };
    let t = clock_from(&stamp, Some(61332), 7200);
    assert_eq!(t, ClockTime { mjd: 61332, hour: 6, minute: 54, offset_secs: 7200 });
    assert_eq!(clock_from(&stamp, None, 0).mjd, 51544);
    assert_eq!(clock_from(&stamp, Some(-3), 0).mjd, 51544);
    assert_eq!(clock_from(&stamp, Some(1 << 40), 0).mjd, 51544);
}

#[test]
fn af_stream_keeps_list_order_and_pads() {
    assert_eq!(encode_af_list(&[87600, 98000, 107900]), vec![0xE3, 1, 105, 204]);
    assert_eq!(encode_af_list(&[87600, 98000]), vec![0xE2, 1, 105, 0x00]);
}
