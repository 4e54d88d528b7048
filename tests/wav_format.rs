use std::io::Cursor;

use hound::{SampleFormat, WavReader, WavSpec, WavWriter};
use pulse_fm_rds_encoder::rds::{RdsGenerator, MPX_SAMPLE_RATE};

#[test]
fn mpx_wav_float_samples_round_trip_bit_exact() {
    let spec = WavSpec {
        channels: 1,
        sample_rate: MPX_SAMPLE_RATE as u32,
        bits_per_sample: 32,
        sample_format: SampleFormat::Float,
    };
    let mut g = RdsGenerator::new();
    let mut samples: Vec<f32> = (0..4096).map(|i| g.tick().carrier as f32 * (i as f32 * 0.001).sin()).collect();
    samples.extend_from_slice(&[0.0, -0.0, 1.0, -1.0, f32::MIN_POSITIVE, 1.0e-40, 0.95, -0.95]);
    let mut bytes = Cursor::new(Vec::new());
    {
        let mut writer = WavWriter::new(&mut bytes, spec).unwrap();
        for s in &samples {
            writer.write_sample(*s).unwrap();
        }
        writer.finalize().unwrap();
    }
    let data = bytes.into_inner();
    let mut reader = WavReader::new(Cursor::new(data)).unwrap();
    assert_eq!(reader.spec(), spec);
    let back: Vec<f32> = reader.samples::<f32>().map(|s| s.unwrap()).collect();
    assert_eq!(back.len(), samples.len());
    for (a, b) in samples.iter().zip(back.iter()) {
        assert_eq!(a.to_bits(), b.to_bits());
    }
}
