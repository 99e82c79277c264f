use lampyris::driver::{ctl_code, encode_push_request, ioctl_push_audio, LAMPYRIS_MAX_AUDIO_PAYLOAD};
use lampyris::jitter::JitterBuffer;

#[test]
fn ioctl_code_of_push_audio() {
    assert_eq!(ctl_code(0x8001, 0x802, 0, 2), 0x8001A008);
    assert_eq!(ioctl_push_audio(), 0x8001A008);
    assert_eq!(ctl_code(0x22, 0x800, 3, 0), 0x0022_2003);
}

#[test]
fn push_request_layout() {
    let req = encode_push_request(&[1, 2, 3, 4, 5, 6]);
    assert_eq!(req.len(), 4 + LAMPYRIS_MAX_AUDIO_PAYLOAD);
    assert_eq!(&req[..4], &6u32.to_le_bytes());
    assert_eq!(&req[4..10], &[1, 2, 3, 4, 5, 6]);
    assert!(req[10..].iter().all(|&b| b == 0));
    let full = encode_push_request(&vec![9u8; 4800]);
    assert_eq!(&full[..4], &4800u32.to_le_bytes());
}

#[test]
fn pipewire_jitter_buffer_prebuffers_ten_ms() {
    let mut j = JitterBuffer::for_pipewire(48000); // 480 samples
    assert_eq!(j.poll(479, 256), 0);
    assert_eq!(j.poll(480, 256), 256);
    assert_eq!(j.poll(100, 256), 100);
    // Underrun: back to buffering.
    assert_eq!(j.poll(0, 256), 0);
    assert_eq!(j.poll(300, 256), 0);
    assert_eq!(j.poll(480, 1000), 480);
}

#[test]
fn driver_jitter_buffer_prebuffers_fifty_ms() {
    let mut j = JitterBuffer::for_driver(48000); // 2400 samples
    assert_eq!(j.poll(2399, 2400), 0);
    assert_eq!(j.poll(5000, 2400), 2400);
    assert_eq!(j.poll(10, 2400), 10);
}

#[test]
fn zero_threshold_plays_whatever_is_queued() {
    let mut j = JitterBuffer::new(0);
    for (occ, req, want) in [(0usize, 10usize, 0usize), (5, 10, 5), (0, 10, 0), (20, 10, 10), (3, 10, 3)] {
        assert_eq!(j.poll(occ, req), want);
    }
}

