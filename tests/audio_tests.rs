use kinect_rtsp::audio::{
    decode_samples, sample_to_i16, samples_to_s16le, AudioFrameError, AudioPublisher,
    AudioReframer, AUDIO_FRAME_SAMPLES,
};
use kinect_rtsp::frame::AudioFrame;

fn payload(samples: &[f32]) -> Vec<u8> {
    samples.iter().flat_map(|s| s.to_le_bytes()).collect()
}

#[test]
fn unit_samples_convert_to_full_scale() {
    assert_eq!(sample_to_i16(1.0f32.to_bits()), 32767);
    assert_eq!(sample_to_i16((-1.0f32).to_bits()), -32767);
    assert_eq!(sample_to_i16(0.0f32.to_bits()), 0);
    assert_eq!(sample_to_i16((-0.0f32).to_bits()), 0);
}

#[test]
fn out_of_range_samples_clamp() {
    assert_eq!(sample_to_i16(2.5f32.to_bits()), 32767);
    assert_eq!(sample_to_i16((-7.0f32).to_bits()), -32767);
    assert_eq!(sample_to_i16(f32::INFINITY.to_bits()), 32767);
    assert_eq!(sample_to_i16(f32::NEG_INFINITY.to_bits()), -32767);
    assert_eq!(sample_to_i16(f32::NAN.to_bits()), 0);
}

#[test]
fn in_range_samples_round_to_nearest() {
    assert_eq!(sample_to_i16(0.5f32.to_bits()), 16384);
    assert_eq!(sample_to_i16((-0.5f32).to_bits()), -16384);
    assert_eq!(sample_to_i16(0.25f32.to_bits()), 8192);
    assert_eq!(sample_to_i16(0.1f32.to_bits()), 3277);
    assert_eq!(sample_to_i16(1e-10f32.to_bits()), 0);
    assert_eq!(sample_to_i16(f32::MIN_POSITIVE.to_bits()), 0);
    assert_eq!(sample_to_i16(0.99999994f32.to_bits()), 32767);
}

#[test]
fn s16le_bytes() {
    let bytes = samples_to_s16le(&vec![1.0f32.to_bits(), (-1.0f32).to_bits(), 0.0f32.to_bits()]);
    assert_eq!(bytes, vec![0xff, 0x7f, 0x01, 0x80, 0x00, 0x00]);
}

#[test]
fn decode_rejects_partial_samples() {
    assert_eq!(decode_samples(&vec![0u8; 7]), Err(AudioFrameError::UnalignedLength));
    let words = decode_samples(&payload(&[1.0, -0.5])).unwrap();
    assert_eq!(words, vec![1.0f32.to_bits(), (-0.5f32).to_bits()]);
    assert_eq!(decode_samples(&vec![]).unwrap(), Vec::<u32>::new());
    assert_eq!(decode_samples(&vec![0x78, 0x56, 0x34, 0x12]).unwrap(), vec![0x1234_5678]);
}

#[test]
fn reframing_500_then_200_samples() {
    let input: Vec<u32> = (0..700u32).collect();
    let mut r = AudioReframer::new(320);
    r.append_samples(&input[..500].to_vec());
    let mut emitted: Vec<Vec<u32>> = Vec::new();
    while let Some(chunk) = r.pop_frame() {
        emitted.push(chunk);
    }
    assert_eq!(emitted.len(), 1);
    assert_eq!(emitted[0], input[..320].to_vec());
    assert_eq!(r.len(), 180);
    r.append_samples(&input[500..].to_vec());
    assert_eq!(r.len(), 380);
    while let Some(chunk) = r.pop_frame() {
        emitted.push(chunk);
    }
    assert_eq!(emitted.len(), 2);
    assert_eq!(emitted[1], input[320..640].to_vec());
    assert_eq!(r.len(), 60);
    let mut all: Vec<u32> = emitted.concat();
    while let Some(chunk) = r.pop_frame() {
        all.extend(chunk);
    }
    assert_eq!(all.len(), 640);
    assert_eq!(all, input[..640].to_vec());
}

#[test]
fn reset_discards_remainder() {
    let mut r = AudioReframer::new(4);
    r.append_samples(&vec![1, 2, 3]);
    assert!(r.pop_frame().is_none());
    r.reset();
    assert_eq!(r.len(), 0);
    assert_eq!(r.frame_size(), 4);
}

#[test]
fn publisher_emits_converted_chunks() {
    let mut p = AudioPublisher::new();
    let first: Vec<f32> = (0..500).map(|i| if i % 2 == 0 { 1.0 } else { -1.0 }).collect();
    let chunks = p.accept(&AudioFrame { data: payload(&first) }).unwrap();
    assert_eq!(chunks.len(), 1);
    assert_eq!(chunks[0].len(), 2 * AUDIO_FRAME_SAMPLES);
    assert_eq!(&chunks[0][..4], &[0xff, 0x7f, 0x01, 0x80]);
    let more = vec![0.5f32; 200];
    let chunks = p.accept(&AudioFrame { data: payload(&more) }).unwrap();
    assert_eq!(chunks.len(), 1);
    // 180 samples left over from the first payload, then the new ones.
    assert_eq!(&chunks[0][..4], &[0xff, 0x7f, 0x01, 0x80]);
    assert_eq!(&chunks[0][360..364], &[0x00, 0x40, 0x00, 0x40]);
}

#[test]
fn publisher_rejects_unaligned_payload() {
    let mut p = AudioPublisher::new();
    assert_eq!(
        p.accept(&AudioFrame { data: vec![0; 6] }),
        Err(AudioFrameError::UnalignedLength)
    );
    assert_eq!(p.accept(&AudioFrame { data: vec![] }).unwrap().len(), 0);
}
