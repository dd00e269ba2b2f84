use assistant_core::wav::{decode_wav, encode_wav};

fn quantize(s: f32) -> i16 {
    (s * 32767.0).clamp(-32768.0, 32767.0) as i16
}

#[test]
fn encoded_bytes_match_the_reference_writer() {
    let samples: Vec<i16> = vec![0, 1, -1, 32767, -32768, 12345, -12345];
    let rate = 44100;
    let ours = encode_wav(&samples, rate);

    let spec = hound::WavSpec {
        channels: 1,
        sample_rate: rate,
        bits_per_sample: 16,
        sample_format: hound::SampleFormat::Int,
    };
    let mut cursor = std::io::Cursor::new(Vec::new());
    {
        let mut writer = hound::WavWriter::new(&mut cursor, spec).unwrap();
        for &s in &samples {
            writer.write_sample(s).unwrap();
        }
        writer.finalize().unwrap();
    }
    assert_eq!(ours, cursor.into_inner());
}

#[test]
fn float_capture_roundtrip_within_one_step() {
    // N generated float samples at rate R
    let rate = 16000;
    let n = 1000;
    let floats: Vec<f32> = (0..n)
        .map(|i| ((i as f32) * 0.013).sin() * 0.9)
        .collect();
    let samples: Vec<i16> = floats.iter().map(|&s| quantize(s)).collect();

    let encoded = encode_wav(&samples, rate);

    // decoding with the reference reader yields N samples at rate R, each
    // within one quantization step of the 16-bit rounding of the original
    let reader = hound::WavReader::new(std::io::Cursor::new(encoded.clone())).unwrap();
    assert_eq!(reader.spec().sample_rate, rate);
    assert_eq!(reader.spec().channels, 1);
    let decoded: Vec<i16> = reader.into_samples::<i16>().map(|s| s.unwrap()).collect();
    assert_eq!(decoded.len(), n);
    for (d, f) in decoded.iter().zip(floats.iter()) {
        let nearest = (f * 32767.0).round().clamp(-32768.0, 32767.0) as i16;
        assert!((*d as i32 - nearest as i32).abs() <= 1, "{} vs {}", d, nearest);
    }

    // decoding with the library's own decoder restores the samples exactly
    let (back, back_rate) = decode_wav(&encoded).unwrap();
    assert_eq!(back_rate, rate);
    assert_eq!(back, samples);
}

#[test]
fn empty_capture_roundtrip() {
    let samples: Vec<i16> = Vec::new();
    let encoded = encode_wav(&samples, 48000);
    assert_eq!(encoded.len(), 44);
    let (back, rate) = decode_wav(&encoded).unwrap();
    assert!(back.is_empty());
    assert_eq!(rate, 48000);
}

#[test]
fn library_decoder_reads_reference_output() {
    let samples: Vec<i16> = vec![-3, 0, 3, 9999];
    let spec = hound::WavSpec {
        channels: 1,
        sample_rate: 22050,
        bits_per_sample: 16,
        sample_format: hound::SampleFormat::Int,
    };
    let mut cursor = std::io::Cursor::new(Vec::new());
    {
        let mut writer = hound::WavWriter::new(&mut cursor, spec).unwrap();
        for &s in &samples {
            writer.write_sample(s).unwrap();
        }
        writer.finalize().unwrap();
    }
    let bytes = cursor.into_inner();
    let (back, rate) = decode_wav(&bytes).unwrap();
    assert_eq!(rate, 22050);
    assert_eq!(back, samples);
}

#[test]
fn decoder_rejects_malformed_containers() {
    assert!(decode_wav(&Vec::new()).is_none());
    assert!(decode_wav(&vec![0u8; 43]).is_none());
    assert!(decode_wav(&vec![0u8; 64]).is_none());
    // flip one fixed header byte of a valid container
    let good = encode_wav(&vec![1i16, 2, 3], 8000);
    let mut bad = good.clone();
    bad[0] = b'X';
    assert!(decode_wav(&bad).is_none());
    // truncate the data section
    let mut short = good.clone();
    short.pop();
    assert!(decode_wav(&short).is_none());
    assert!(decode_wav(&good).is_some());
}
