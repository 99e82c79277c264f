use lampyris::womic::{HandshakeStep, PacketError, PacketStep, ProtocolHandler};

/// Runs one packet read over an in-memory stream, as the network driver does.
fn read_audio_packet(h: &mut ProtocolHandler, stream: &[u8], pos: &mut usize, buf: &mut [u8]) -> Result<usize, PacketError> {
    let mut step = h.start_read(buf.len());
    loop {
        match step {
            PacketStep::NeedHeader(n) => {
                assert!(*pos + n <= stream.len(), "unexpected end of stream");
                let chunk = &stream[*pos..*pos + n];
                *pos += n;
                step = h.feed(chunk)?;
            }
            PacketStep::Payload(len) => {
                buf[..len].copy_from_slice(&stream[*pos..*pos + len]);
                *pos += len;
                return Ok(len);
            }
        }
    }
}

#[test]
fn test_valid_packet_parsing() {
    let data = [
        0x04, 0x00, 0x00, 0x05, // Header
        0x01, 0x02, 0x03, 0x04, 0x05, // Payload
    ];
    let mut handler = ProtocolHandler::new();
    let mut buf = [0u8; 10];

    let n = read_audio_packet(&mut handler, &data, &mut 0, &mut buf).unwrap();
    assert_eq!(n, 5);
    assert_eq!(&buf[..5], &[0x01, 0x02, 0x03, 0x04, 0x05]);
}

#[test]
fn test_protocol_resync() {
    let data = [
        0xDE, 0xAD, 0xBE, 0xEF, // Garbage
        0x04, 0x00, 0x00, 0x03, // Header
        0xAA, 0xBB, 0xCC, // Payload
    ];
    let mut handler = ProtocolHandler::new();
    let mut buf = [0u8; 10];

    let n = read_audio_packet(&mut handler, &data, &mut 0, &mut buf).unwrap();
    assert_eq!(n, 3);
    assert_eq!(&buf[..3], &[0xAA, 0xBB, 0xCC]);
}

#[test]
fn test_buffer_overflow_protection() {
    let data = [
        0x04, 0x00, 0x00, 0xFF, // Header claiming 255 bytes
    ];
    let mut handler = ProtocolHandler::new();
    let mut buf = [0u8; 10]; // Buffer too small

    let result = read_audio_packet(&mut handler, &data, &mut 0, &mut buf);
    assert!(result.is_err());
    let err = result.unwrap_err();
    assert_eq!(err, PacketError::BufferOverflow { len: 255, capacity: 10 });
    assert!(err.message().contains("Buffer overflow"));
    assert_eq!(err.message(), "Buffer overflow: packet length 255 exceeds buffer size 10");
}

#[test]
fn zero_length_packets_are_skipped_and_length_is_24_bit() {
    let mut data = vec![0x04, 0x00, 0x00, 0x00];
    data.extend([0x04, 0x01, 0x00, 0x00]);
    let mut handler = ProtocolHandler::new();
    let mut buf = [0u8; 10];
    let r = read_audio_packet(&mut handler, &data, &mut 0, &mut buf);
    assert_eq!(r, Err(PacketError::BufferOverflow { len: 65536, capacity: 10 }));
}

#[test]
fn handshake_sends_init_config_start() {
    let handler = ProtocolHandler::new();
    let steps = handler.handshake();
    assert_eq!(
        steps,
        vec![
            HandshakeStep::Send(vec![0x65, 0x00, 0x00, 0x00, 0x06, 0x04, 0x04, 0x06, 0x02, 0x00, 0x00]),
            HandshakeStep::Receive(7),
            HandshakeStep::Send(vec![0x66, 0x00, 0x00, 0x00, 0x06, 0x02, 0x02, 0x00, 0x00, 0xBB, 0x80]),
            HandshakeStep::Receive(6),
            HandshakeStep::Send(vec![0x67, 0x00, 0x00, 0x00, 0x00]),
            HandshakeStep::Receive(6),
        ]
    );
    // 0xBB80 is the sample rate.
    assert_eq!(u16::from_be_bytes([0xBB, 0x80]), 48000);
}
