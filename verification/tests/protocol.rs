use lampyris::protocol::{FrameError, ProtocolHandler, ReadStep, MAX_PAYLOAD};

/// Runs one read of `buf.len()` bytes over an in-memory stream, as the network driver does.
fn read_audio_packet(
    h: &mut ProtocolHandler,
    stream: &[u8],
    pos: &mut usize,
    buf: &mut [u8],
) -> Result<usize, FrameError> {
    let mut step = h.start_read(buf.len());
    loop {
        match step {
            ReadStep::Ready => return Ok(h.take_into(buf)),
            ReadStep::NeedHeader(n) | ReadStep::NeedPayload(n) => {
                assert!(*pos + n <= stream.len(), "unexpected end of stream");
                let chunk = &stream[*pos..*pos + n];
                *pos += n;
                step = h.feed(chunk)?;
            }
        }
    }
}

fn frame(ver_flags: u8, seq: u16, payload: &[u8]) -> Vec<u8> {
    let mut f = vec![b'M', b'C', ver_flags];
    f.extend_from_slice(&seq.to_be_bytes());
    f.extend_from_slice(&(payload.len() as u16).to_be_bytes());
    f.extend_from_slice(payload);
    f
}

#[test]
fn test_valid_mc_packet_parsing() {
    let data = [
        b'M', b'C', 0x10, 0x00, 0x01, 0x00, 0x05, // Header: v1/48kHz, seq 1, len 5
        0x01, 0x02, 0x03, 0x04, 0x05, // Payload
    ];
    let mut handler = ProtocolHandler::new();
    let mut pos = 0;
    let mut buf = [0u8; 5];

    let n = read_audio_packet(&mut handler, &data, &mut pos, &mut buf).unwrap();
    assert_eq!(n, 5);
    assert_eq!(&buf[..5], &[0x01, 0x02, 0x03, 0x04, 0x05]);
}

#[test]
fn test_protocol_resync_mc() {
    let data = [
        0xDE, 0xAD, b'M', 0xBE, // Garbage containing 'M' but not 'C'
        b'M', b'C', 0x10, 0x00, 0x01, 0x00, 0x03, // Correct header
        0xAA, 0xBB, 0xCC, // Payload
    ];
    let mut handler = ProtocolHandler::new();
    let mut pos = 0;
    let mut buf = [0u8; 3];

    let n = read_audio_packet(&mut handler, &data, &mut pos, &mut buf).unwrap();
    assert_eq!(n, 3);
    assert_eq!(&buf[..3], &[0xAA, 0xBB, 0xCC]);
}

#[test]
fn protocol_test_buffer_overflow_protection() {
    let data = [
        b'M', b'C', 0x10, 0x00, 0x01, 0x12, 0xC1, // Header claiming 4801 bytes (0x12C1)
    ];
    let mut handler = ProtocolHandler::new();
    let mut pos = 0;
    let mut buf = [0u8; 10];

    let result = read_audio_packet(&mut handler, &data, &mut pos, &mut buf);
    assert!(result.is_err());
    let err = result.unwrap_err();
    assert_eq!(err, FrameError::PayloadTooLarge(4801));
    assert!(err.message().contains("exceeds limit of 4800"));
    assert_eq!(MAX_PAYLOAD, 4800);
    // Only the header was consumed: the announced payload is never read.
    assert_eq!(pos, data.len());
}

#[test]
fn test_degraded_mode_upsampling() {
    let data = [
        b'M', b'C', 0x11, 0x00, 0x01, 0x00, 0x04, // Header: v1/24kHz, seq 1, len 4
        0x01, 0x02, 0x03, 0x04, // Payload (2 samples: 0x0201, 0x0403)
    ];
    let mut handler = ProtocolHandler::new();
    let mut pos = 0;
    let mut buf = [0u8; 8];

    let n = read_audio_packet(&mut handler, &data, &mut pos, &mut buf).unwrap();
    assert_eq!(n, 8);
    assert_eq!(&buf, &[0x01, 0x02, 0x01, 0x02, 0x03, 0x04, 0x03, 0x04]);
}

#[test]
fn test_sequence_gap_silence_insertion() {
    let data = [
        b'M', b'C', 0x10, 0x00, 0x01, 0x00, 0x04, // Header: seq 1, len 4
        0x01, 0x02, 0x03, 0x04, b'M', b'C', 0x10, 0x00, 0x03, 0x00,
        0x04, // Header: seq 3 (missing 2), len 4
        0x05, 0x06, 0x07, 0x08,
    ];
    let mut handler = ProtocolHandler::new();
    let mut pos = 0;
    let mut buf = [0u8; 12];

    let n = read_audio_packet(&mut handler, &data, &mut pos, &mut buf).unwrap();
    assert_eq!(n, 12);
    assert_eq!(
        &buf,
        &[
            0x01, 0x02, 0x03, 0x04, // Packet 1
            0x00, 0x00, 0x00, 0x00, // Silence inserted for missing Packet 2
            0x05, 0x06, 0x07, 0x08 // Packet 3
        ]
    );
}

#[test]
fn unsupported_version_is_refused() {
    let data = frame(0x20, 1, &[1, 2]);
    let mut handler = ProtocolHandler::new();
    let mut pos = 0;
    let mut buf = [0u8; 2];
    let r = read_audio_packet(&mut handler, &data, &mut pos, &mut buf);
    assert_eq!(r, Err(FrameError::UnsupportedVersion(2)));
}

#[test]
fn odd_degraded_payload_is_refused_after_silence() {
    // seq 1 then seq 4 (two missing) at 24 kHz with 3 bytes: silence 2 * 6 = 12 bytes is
    // queued before the frame is refused.
    let mut data = frame(0x10, 1, &[9, 9]);
    data.extend(frame(0x11, 4, &[1, 2, 3]));
    let mut handler = ProtocolHandler::new();
    let mut pos = 0;
    let mut buf = [0u8; 20];
    let r = read_audio_packet(&mut handler, &data, &mut pos, &mut buf);
    assert_eq!(r, Err(FrameError::OddDegradedPayload(3)));
    // The queued audio is still served by the next read.
    let mut small = [0xFFu8; 14];
    let n = read_audio_packet(&mut handler, &[], &mut 0, &mut small).unwrap();
    assert_eq!(n, 14);
    assert_eq!(&small[..2], &[9, 9]);
    assert!(small[2..].iter().all(|&b| b == 0));
}

#[test]
fn zero_length_frames_are_skipped() {
    let mut data = frame(0x10, 7, &[]);
    data.extend(frame(0x10, 8, &[5, 6]));
    let mut handler = ProtocolHandler::new();
    let mut pos = 0;
    let mut buf = [0u8; 2];
    assert_eq!(read_audio_packet(&mut handler, &data, &mut pos, &mut buf), Ok(2));
    assert_eq!(buf, [5, 6]);
}

#[test]
fn silence_is_capped_at_half_a_second() {
    // A gap of 2999 frames of 4800 bytes asks for far more than 48000 bytes of silence.
    let payload = vec![7u8; 4800];
    let mut data = frame(0x10, 0, &payload);
    data.extend(frame(0x10, 2999, &payload));
    let mut handler = ProtocolHandler::new();
    let mut pos = 0;
    let mut buf = vec![0u8; 4800 + 48000 + 4800];
    let n = read_audio_packet(&mut handler, &data, &mut pos, &mut buf).unwrap();
    assert_eq!(n, 4800 + 48000 + 4800);
    assert!(buf[..4800].iter().all(|&b| b == 7));
    assert!(buf[4800..52800].iter().all(|&b| b == 0));
    assert!(buf[52800..].iter().all(|&b| b == 7));
}

#[test]
fn large_gaps_and_wraparound_insert_no_silence() {
    // 65535 -> 0 is the expected successor; a jump of 3000 or more is not a loss.
    let mut data = frame(0x10, 65535, &[1, 1]);
    data.extend(frame(0x10, 0, &[2, 2]));
    data.extend(frame(0x10, 3001, &[3, 3]));
    let mut handler = ProtocolHandler::new();
    let mut pos = 0;
    let mut buf = [0u8; 6];
    assert_eq!(read_audio_packet(&mut handler, &data, &mut pos, &mut buf), Ok(6));
    assert_eq!(buf, [1, 1, 2, 2, 3, 3]);
}

#[test]
fn reads_are_served_in_order_from_the_queue() {
    let data = frame(0x10, 1, &[1, 2, 3, 4, 5, 6]);
    let mut handler = ProtocolHandler::new();
    let mut pos = 0;
    let mut a = [0u8; 4];
    assert_eq!(read_audio_packet(&mut handler, &data, &mut pos, &mut a), Ok(4));
    assert_eq!(a, [1, 2, 3, 4]);
    // The rest is already queued: no byte of the stream is needed.
    let mut b = [0u8; 2];
    assert_eq!(handler.start_read(2), ReadStep::Ready);
    assert_eq!(handler.take_into(&mut b), 2);
    assert_eq!(b, [5, 6]);
}

#[test]
fn noise_law_on_concrete_bytes() {
    // Bytes that are not 'M', and 'M' followed by something other than 'C', are skipped.
    let mut data = vec![0x00, b'M', b'M', 0x41, b'C'];
    data.extend(frame(0x10, 9, &[4, 2]));
    let mut handler = ProtocolHandler::new();
    let mut pos = 0;
    let mut buf = [0u8; 2];
    assert_eq!(read_audio_packet(&mut handler, &data, &mut pos, &mut buf), Ok(2));
    assert_eq!(buf, [4, 2]);
    assert_eq!(pos, data.len());
}

#[test]
fn frame_error_messages() {
    assert_eq!(FrameError::PayloadTooLarge(4801).message(), "Payload size 4801 exceeds limit of 4800 bytes");
    assert_eq!(FrameError::UnsupportedVersion(0).message(), "Unsupported protocol version: 0");
    assert_eq!(FrameError::UnsupportedVersion(15).message(), "Unsupported protocol version: 15");
    assert_eq!(FrameError::OddDegradedPayload(3).message(), "Degraded payload length is not even");
    assert_eq!(FrameError::PayloadTimeout.message(), "Timeout waiting for audio packet payload");
}

#[test]
fn split_reads_give_the_same_bytes_as_one_read() {
    let data = [
        b'M', b'C', 0x10, 0x00, 0x01, 0x00, 0x04, 0x01, 0x02, 0x03, 0x04,
        b'M', b'C', 0x10, 0x00, 0x03, 0x00, 0x04, 0x05, 0x06, 0x07, 0x08,
    ];
    let mut split = ProtocolHandler::new();
    let mut pos = 0;
    let mut parts = Vec::new();
    for _ in 0..3 {
        let mut b = [0xAAu8; 4];
        assert_eq!(read_audio_packet(&mut split, &data, &mut pos, &mut b), Ok(4));
        parts.push(b);
    }
    assert_eq!(parts, vec![[1, 2, 3, 4], [0, 0, 0, 0], [5, 6, 7, 8]]);
    let split_pos = pos;

    let mut whole = ProtocolHandler::new();
    let mut pos = 0;
    let mut b = [0u8; 12];
    assert_eq!(read_audio_packet(&mut whole, &data, &mut pos, &mut b), Ok(12));
    assert_eq!(b.to_vec(), parts.concat());
    assert_eq!(pos, split_pos);
}
