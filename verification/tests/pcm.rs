use lampyris::pcm::{convert_s16_le, decode_s16le, encode_s16le, peak_magnitude, PcmDecoder};

#[test]
fn test_pcm_decoding() {
    let mut decoder = PcmDecoder::new();
    // 0, 32767 (max), -32768 (min)
    let input = [
        0x00, 0x00,
        0xFF, 0x7F,
        0x00, 0x80,
    ];
    let mut samples = Vec::new();
    decoder.decode(&input, &mut samples);
    assert_eq!(samples, vec![0, 32767, -32768]);

    // Normalised as the audio path does: a sample s stands for s / 32768.
    let output: Vec<f32> = samples.iter().map(|&s| s as f32 / 32768.0).collect();
    assert_eq!(output.len(), 3);
    assert!((output[0] - 0.0).abs() < 1e-6);
    assert!((output[1] - 32767.0 / 32768.0).abs() < 1e-6);
    assert!((output[2] - (-1.0)).abs() < 1e-6);
}

#[test]
fn trailing_odd_byte_is_not_a_sample() {
    let mut out = vec![5i16];
    decode_s16le(&[0x01, 0x02, 0x03], &mut out);
    assert_eq!(out, vec![5, 0x0201]);
}

#[test]
fn convert_replaces_contents() {
    let mut dst = vec![1i16, 2, 3];
    convert_s16_le(&[0xFE, 0xFF, 0x10, 0x00], &mut dst);
    assert_eq!(dst, vec![-2, 16]);
}

#[test]
fn encode_then_decode_is_identity() {
    let samples = [0i16, 1, -1, 32767, -32768, 0x1234];
    let bytes = encode_s16le(&samples);
    assert_eq!(bytes, vec![0, 0, 1, 0, 0xFF, 0xFF, 0xFF, 0x7F, 0x00, 0x80, 0x34, 0x12]);
    let mut back = Vec::new();
    decode_s16le(&bytes, &mut back);
    assert_eq!(back, samples.to_vec());
}

#[test]
fn peak_is_largest_magnitude() {
    assert_eq!(peak_magnitude(&[]), 0);
    assert_eq!(peak_magnitude(&[3, -7, 5]), 7);
    assert_eq!(peak_magnitude(&[100, -32768, 32767]), 32768);
    // As a level: 32768 is full scale.
    assert_eq!(peak_magnitude(&[-16384]) as f32 / 32768.0, 0.5);
}
