//! The WO Mic protocol: a fixed three-command handshake, then audio packets of the form
//! `0x04 len_hi len_mid len_lo payload`, the length being a 24-bit big-endian integer.
//!
//! [`ProtocolHandler`] holds no stream: it says how many bytes to read next and is fed them.
use vstd::prelude::*;
use crate::text::{decimal, push_decimal};

verus! {

/// Packet type of an audio packet.
pub const AUDIO_MARKER: u8 = 0x04;

/// Why an audio packet was refused.
#[derive(Clone, Copy, PartialEq, Eq, Debug, Structural)]
pub enum PacketError {
    /// The packet announced `len` bytes but the reader's buffer holds `capacity`.
    BufferOverflow { len: usize, capacity: usize },
}

/// The text of a packet error.
pub open spec fn packet_error_message(e: PacketError) -> Seq<char> {
    match e {
        PacketError::BufferOverflow { len, capacity } => "Buffer overflow: packet length "@ + decimal(len as nat)
            + " exceeds buffer size "@ + decimal(capacity as nat),
    }
}

impl PacketError {
    /// Describes the error.
    pub fn message(&self) -> (m: String)
        ensures
            m@ == packet_error_message(*self),
    {
        match self {
            PacketError::BufferOverflow { len, capacity } => {
                let mut m = String::from_str("Buffer overflow: packet length ");
                push_decimal(&mut m, *len as u64);
                m.append(" exceeds buffer size ");
                push_decimal(&mut m, *capacity as u64);
                m
            },
        }
    }
}

/// One step of the handshake.
#[derive(PartialEq, Eq, Debug)]
pub enum HandshakeStep {
    /// Write these bytes.
    Send(Vec<u8>),
    /// Read (and discard) this many bytes of response.
    Receive(usize),
}

/// Where a packet read stands.
#[derive(Clone, Copy, PartialEq, Eq, Debug, Structural)]
pub enum PacketPhase {
    /// No read is in progress.
    Idle,
    /// Looking for the packet-type byte 0x04.
    Marker,
    /// The marker was seen; the three length bytes are next.
    Length,
}

/// What the driver of a [`ProtocolHandler`] must do next.
#[derive(Clone, Copy, PartialEq, Eq, Debug, Structural)]
pub enum PacketStep {
    /// Read exactly this many header bytes and feed them.
    NeedHeader(usize),
    /// Read exactly this many payload bytes into the front of the buffer; they are the packet.
    Payload(usize),
}

/// The bytes of the Init command: `'e'`, a 32-bit length of 6, and its payload.
pub open spec fn init_command() -> Seq<u8> {
    seq![0x65u8, 0x00, 0x00, 0x00, 0x06, 0x04, 0x04, 0x06, 0x02, 0x00, 0x00]
}

/// The bytes of the Config command: `'f'`, a length of 6, and a payload ending in the
/// sample rate 48000 (0xBB80).
pub open spec fn config_command() -> Seq<u8> {
    seq![0x66u8, 0x00, 0x00, 0x00, 0x06, 0x02, 0x02, 0x00, 0x00, 0xBB, 0x80]
}

/// The bytes of the Start command: `'g'` and a length of 0.
pub open spec fn start_command() -> Seq<u8> {
    seq![0x67u8, 0x00, 0x00, 0x00, 0x00]
}

/// The big-endian 24-bit length of a packet header.
pub open spec fn be24(a: u8, b: u8, c: u8) -> nat {
    (a * 65536 + b * 256 + c) as nat
}

/// How many header bytes are read in a phase.
pub open spec fn packet_need(phase: PacketPhase) -> nat {
    match phase {
        PacketPhase::Idle => 0,
        PacketPhase::Marker => 1,
        PacketPhase::Length => 3,
    }
}

/// The transition made when the header bytes requested in `phase` arrive, for a buffer of
/// `capacity` bytes: other bytes than the marker are skipped one at a time; a zero length
/// is skipped; a length beyond the buffer is refused; any other length ends the header.
pub open spec fn packet_feed_spec(phase: PacketPhase, capacity: nat, bytes: Seq<u8>) -> (PacketPhase, Result<PacketStep, PacketError>) {
    match phase {
        PacketPhase::Marker => if bytes[0] == AUDIO_MARKER {
            (PacketPhase::Length, Ok(PacketStep::NeedHeader(3)))
        } else {
            (PacketPhase::Marker, Ok(PacketStep::NeedHeader(1)))
        },
        PacketPhase::Length => {
            let len = be24(bytes[0], bytes[1], bytes[2]);
            if len == 0 {
                (PacketPhase::Marker, Ok(PacketStep::NeedHeader(1)))
            } else if len > capacity {
                (PacketPhase::Idle, Err(PacketError::BufferOverflow { len: len as usize, capacity: capacity as usize }))
            } else {
                (PacketPhase::Idle, Ok(PacketStep::Payload(len as usize)))
            }
        },
        PacketPhase::Idle => (PacketPhase::Idle, Ok(PacketStep::NeedHeader(1))),
    }
}

/// What a driver gets when it runs a packet read over the bytes of `stream`: the number of
/// header bytes consumed and the payload length found, an error, or `None` when the stream
/// ran short.
pub open spec fn packet_drive(phase: PacketPhase, capacity: nat, stream: Seq<u8>) -> (nat, Result<Option<nat>, PacketError>)
    decreases stream.len(),
{
    let n = packet_need(phase);
    if n == 0 || stream.len() < n {
        (0, Ok(None))
    } else {
        let (p1, r) = packet_feed_spec(phase, capacity, stream.take(n as int));
        match r {
            Err(e) => (n, Err(e)),
            Ok(PacketStep::Payload(len)) => (n, Ok(Some(len as nat))),
            Ok(PacketStep::NeedHeader(_)) => {
                let (c, r2) = packet_drive(p1, capacity, stream.skip(n as int));
                (n + c, r2)
            },
        }
    }
}

/// Bytes that a packet read discards: bytes other than the marker, and empty packets.
pub open spec fn is_packet_noise(g: Seq<u8>) -> bool
    decreases g.len(),
{
    if g.len() == 0 {
        true
    } else if g[0] != AUDIO_MARKER {
        is_packet_noise(g.skip(1))
    } else {
        g.len() >= 4 && g[1] == 0 && g[2] == 0 && g[3] == 0 && is_packet_noise(g.skip(4))
    }
}

/// Resynchronisation: noise in front of the stream is consumed and changes nothing else.
pub proof fn law_packet_noise_is_skipped(capacity: nat, g: Seq<u8>, s: Seq<u8>)
    requires
        is_packet_noise(g),
    ensures
        packet_drive(PacketPhase::Marker, capacity, g + s) == ({
            let (c, r) = packet_drive(PacketPhase::Marker, capacity, s);
            (c + g.len(), r)
        }),
    decreases g.len(),
{
    let st = g + s;
    if g.len() == 0 {
        assert(st =~= s);
    } else if g[0] != AUDIO_MARKER {
        assert(st.take(1)[0] == g[0]);
        assert(st.skip(1) =~= g.skip(1) + s);
        law_packet_noise_is_skipped(capacity, g.skip(1), s);
    } else {
        assert(st.take(1)[0] == g[0]);
        assert(st.skip(1).take(3) =~= seq![0u8, 0, 0]);
        assert(st.skip(1).skip(3) =~= g.skip(4) + s);
        law_packet_noise_is_skipped(capacity, g.skip(4), s);
        assert(packet_drive(PacketPhase::Length, capacity, st.skip(1)) == ({
            let (c, r) = packet_drive(PacketPhase::Marker, capacity, st.skip(1).skip(3));
            (3 + c, r)
        }));
    }
}

/// A packet header announcing `len` bytes, 1 to the buffer's capacity, is read whole and
/// hands the payload length over; one announcing more is refused.
pub proof fn law_packet_header_is_read(capacity: nat, len: nat, rest: Seq<u8>)
    requires
        1 <= len < 0x1000000,
    ensures
        packet_drive(
            PacketPhase::Marker,
            capacity,
            seq![AUDIO_MARKER, (len / 65536) as u8, ((len / 256) % 256) as u8, (len % 256) as u8] + rest,
        ) == if len <= capacity {
            (4nat, Ok::<Option<nat>, PacketError>(Some(len)))
        } else {
            (4nat, Err::<Option<nat>, PacketError>(PacketError::BufferOverflow { len: len as usize, capacity: capacity as usize }))
        },
{
    let h = seq![AUDIO_MARKER, (len / 65536) as u8, ((len / 256) % 256) as u8, (len % 256) as u8];
    let st = h + rest;
    assert(st.take(1)[0] == AUDIO_MARKER);
    assert(st.skip(1).take(3) =~= seq![(len / 65536) as u8, ((len / 256) % 256) as u8, (len % 256) as u8]);
    assert(be24((len / 65536) as u8, ((len / 256) % 256) as u8, (len % 256) as u8) == len);
    assert((len as usize) as nat == len);
    let r3 = packet_drive(PacketPhase::Length, capacity, st.skip(1));
    assert(r3.0 == 3);
    assert(packet_drive(PacketPhase::Marker, capacity, st) == (1 + r3.0, r3.1));
}

/// Reads audio packets of the WO Mic protocol for a reader whose buffer holds `capacity`
/// bytes.
pub struct ProtocolHandler {
    phase: PacketPhase,
    capacity: usize,
}

impl ProtocolHandler {
    pub closed spec fn phase(&self) -> PacketPhase {
        self.phase
    }

    pub closed spec fn capacity(&self) -> nat {
        self.capacity as nat
    }

    /// Creates a handler with no read in progress.
    pub fn new() -> (h: Self)
        ensures
            h.phase() == PacketPhase::Idle,
            h.capacity() == 0,
    {
        ProtocolHandler { phase: PacketPhase::Idle, capacity: 0 }
    }

    /// The handshake: send Init and read 7 bytes, send Config and read 6, send Start and
    /// read 6. The responses are not inspected.
    pub fn handshake(&self) -> (steps: Vec<HandshakeStep>)
        ensures
            steps@.len() == 6,
            steps@[0] matches HandshakeStep::Send(b) && b@ == init_command(),
            steps@[1] == HandshakeStep::Receive(7),
            steps@[2] matches HandshakeStep::Send(b) && b@ == config_command(),
            steps@[3] == HandshakeStep::Receive(6),
            steps@[4] matches HandshakeStep::Send(b) && b@ == start_command(),
            steps@[5] == HandshakeStep::Receive(6),
    {
        let init = vec![0x65u8, 0x00, 0x00, 0x00, 0x06, 0x04, 0x04, 0x06, 0x02, 0x00, 0x00];
        let config = vec![0x66u8, 0x00, 0x00, 0x00, 0x06, 0x02, 0x02, 0x00, 0x00, 0xBB, 0x80];
        let start = vec![0x67u8, 0x00, 0x00, 0x00, 0x00];
        assert(init@ =~= init_command());
        assert(config@ =~= config_command());
        assert(start@ =~= start_command());
        let mut steps: Vec<HandshakeStep> = Vec::new();
        steps.push(HandshakeStep::Send(init));
        steps.push(HandshakeStep::Receive(7));
        steps.push(HandshakeStep::Send(config));
        steps.push(HandshakeStep::Receive(6));
        steps.push(HandshakeStep::Send(start));
        steps.push(HandshakeStep::Receive(6));
        steps
    }

    /// Starts reading one audio packet into a buffer of `capacity` bytes.
    pub fn start_read(&mut self, capacity: usize) -> (step: PacketStep)
        ensures
            final(self).phase() == PacketPhase::Marker,
            final(self).capacity() == capacity,
            step == PacketStep::NeedHeader(1),
    {
        self.phase = PacketPhase::Marker;
        self.capacity = capacity;
        PacketStep::NeedHeader(1)
    }

    /// Feeds the header bytes that the last step asked for. Bytes other than the marker
    /// are skipped one at a time; a zero length is skipped; a length beyond the buffer is
    /// refused; any other length ends the header and the payload follows.
    pub fn feed(&mut self, bytes: &[u8]) -> (r: Result<PacketStep, PacketError>)
        requires
            old(self).phase() is Marker ==> bytes@.len() == 1,
            old(self).phase() is Length ==> bytes@.len() == 3,
            old(self).phase() !is Idle,
        ensures
            final(self).capacity() == old(self).capacity(),
            (final(self).phase(), r) == packet_feed_spec(old(self).phase(), old(self).capacity(), bytes@),
    {
        match self.phase {
            PacketPhase::Marker => {
                if bytes[0] == AUDIO_MARKER {
                    self.phase = PacketPhase::Length;
                    Ok(PacketStep::NeedHeader(3))
                } else {
                    Ok(PacketStep::NeedHeader(1))
                }
            },
            PacketPhase::Length => {
                let a = bytes[0];
                let b = bytes[1];
                let c = bytes[2];
                let len: usize = ((a as usize) << 16usize) | ((b as usize) << 8usize) | (c as usize);
                assert(((a as usize) << 16usize) | ((b as usize) << 8usize) | (c as usize) == a * 65536
                    + b * 256 + c) by (bit_vector);
                if len == 0 {
                    self.phase = PacketPhase::Marker;
                    Ok(PacketStep::NeedHeader(1))
                } else if len > self.capacity {
                    self.phase = PacketPhase::Idle;
                    Err(PacketError::BufferOverflow { len, capacity: self.capacity })
                } else {
                    self.phase = PacketPhase::Idle;
                    Ok(PacketStep::Payload(len))
                }
            },
            PacketPhase::Idle => Ok(PacketStep::NeedHeader(1)),
        }
    }
}

} // verus!
