//! The Lampyris raw PCM framing protocol (version 1).
//!
//! A frame on the wire is `'M' 'C' ver_flags seq_hi seq_lo len_hi len_lo` followed by
//! `len` bytes of 16-bit little-endian mono PCM.  The high nibble of `ver_flags` is the
//! protocol version, bit 0 of its low nibble marks a 24 kHz ("degraded") payload.
//!
//! [`ProtocolHandler`] holds no stream: it tells its driver how many bytes to read next,
//! is fed exactly those bytes, and keeps the queue of 48 kHz PCM that reads are served from.
use vstd::prelude::*;
use crate::text::{decimal, push_decimal};

verus! {

/// Largest payload a frame may announce.
pub const MAX_PAYLOAD: usize = 4800;

/// Cap on the silence inserted for one sequence gap (half a second of 48 kHz s16 mono).
pub const MAX_SILENCE: usize = 48000;

/// Gaps of this many frames or more are taken as a restart, not as loss.
pub const MAX_GAP: u16 = 3000;

/// Why a frame was refused.
#[derive(Clone, Copy, PartialEq, Eq, Debug, Structural)]
pub enum FrameError {
    /// The header's high nibble announced a version other than 1.
    UnsupportedVersion(u8),
    /// The header announced a payload longer than [`MAX_PAYLOAD`].
    PayloadTooLarge(u16),
    /// A 24 kHz payload had an odd number of bytes.
    OddDegradedPayload(u16),
    /// The payload did not arrive in time (reported by the driver of the handler).
    PayloadTimeout,
}

/// The text of a frame error.
pub open spec fn frame_error_message(e: FrameError) -> Seq<char> {
    match e {
        FrameError::UnsupportedVersion(v) => "Unsupported protocol version: "@ + decimal(v as nat),
        FrameError::PayloadTooLarge(len) => "Payload size "@ + decimal(len as nat) + " exceeds limit of 4800 bytes"@,
        FrameError::OddDegradedPayload(_) => "Degraded payload length is not even"@,
        FrameError::PayloadTimeout => "Timeout waiting for audio packet payload"@,
    }
}

impl FrameError {
    /// Describes the error.
    pub fn message(&self) -> (m: String)
        ensures
            m@ == frame_error_message(*self),
    {
        match self {
            FrameError::UnsupportedVersion(v) => {
                let mut m = String::from_str("Unsupported protocol version: ");
                push_decimal(&mut m, *v as u64);
                m
            },
            FrameError::PayloadTooLarge(len) => {
                let mut m = String::from_str("Payload size ");
                push_decimal(&mut m, *len as u64);
                m.append(" exceeds limit of 4800 bytes");
                m
            },
            FrameError::OddDegradedPayload(_) => String::from_str("Degraded payload length is not even"),
            FrameError::PayloadTimeout => String::from_str("Timeout waiting for audio packet payload"),
        }
    }
}

/// Where the handler stands in the byte stream.
#[derive(Clone, Copy, PartialEq, Eq, Debug, Structural)]
pub enum ScanPhase {
    /// No read is in progress.
    Idle,
    /// Looking for the first magic byte `'M'`.
    Magic,
    /// An `'M'` was seen; the next byte must be `'C'`.
    SecondMagic,
    /// Both magic bytes were seen; the five remaining header bytes are next.
    Header,
    /// A valid header was read; its payload is next.
    Payload { seq: u16, is_24khz: bool, len: u16 },
}

/// What the driver of a [`ProtocolHandler`] must do next.
#[derive(Clone, Copy, PartialEq, Eq, Debug, Structural)]
pub enum ReadStep {
    /// Read exactly this many bytes of header (or resynchronisation) and feed them.
    NeedHeader(usize),
    /// Read exactly this many bytes of frame payload and feed them.
    NeedPayload(usize),
    /// Enough audio is queued: call [`ProtocolHandler::take_into`].
    Ready,
}

/// The abstract state of a [`ProtocolHandler`].
#[verifier::ext_equal]
pub struct HandlerView {
    /// Sequence number the next frame is expected to carry.
    pub expected_seq: Option<u16>,
    /// 48 kHz PCM bytes received but not yet handed out.
    pub queue: Seq<u8>,
    /// Position in the frame grammar.
    pub phase: ScanPhase,
    /// Number of bytes the read in progress wants to hand out.
    pub want: nat,
}

/// First magic byte of a frame, `'M'`.
pub const MAGIC_0: u8 = 0x4d;

/// Second magic byte of a frame, `'C'`.
pub const MAGIC_1: u8 = 0x43;

/// The two's-complement difference `seq - expected` of 16-bit sequence numbers.
pub open spec fn seq_gap(expected: u16, seq: u16) -> nat {
    if seq >= expected {
        (seq - expected) as nat
    } else {
        (seq + 65536 - expected) as nat
    }
}

/// The sequence number that follows `seq`, wrapping at 2^16.
pub open spec fn seq_next(seq: u16) -> u16 {
    if seq == 0xffff {
        0
    } else {
        (seq + 1) as u16
    }
}

pub open spec fn min_nat(a: nat, b: nat) -> nat {
    if a <= b {
        a
    } else {
        b
    }
}

/// Number of zero bytes inserted before a frame with sequence number `seq` whose payload
/// is `payload_len` bytes long: a gap of `g` frames (0 < g < 3000) is filled with `g` frames
/// of silence of the size the frame has once at 48 kHz, at most [`MAX_SILENCE`] bytes.
pub open spec fn silence_len(expected: Option<u16>, seq: u16, payload_len: nat, is_24khz: bool) -> nat {
    match expected {
        None => 0,
        Some(e) => {
            let gap = seq_gap(e, seq);
            if 0 < gap && gap < MAX_GAP {
                let frame = if is_24khz {
                    2 * payload_len
                } else {
                    payload_len
                };
                min_nat(gap * frame, MAX_SILENCE as nat)
            } else {
                0
            }
        },
    }
}

pub open spec fn zeros(n: nat) -> Seq<u8> {
    Seq::new(n, |i: int| 0u8)
}

/// A 24 kHz payload brought to 48 kHz: every 2-byte sample is emitted twice.
pub open spec fn upsample(p: Seq<u8>) -> Seq<u8> {
    Seq::new(2 * p.len(), |i: int| p[(i / 4) * 2 + i % 2])
}

/// The queued audio a payload contributes.
pub open spec fn frame_audio(payload: Seq<u8>, is_24khz: bool) -> Seq<u8> {
    if is_24khz {
        upsample(payload)
    } else {
        payload
    }
}

/// Effect of a complete frame on the sequence tracking and the queue, and whether it is
/// accepted: silence for a gap comes first, then the frame's audio; a 24 kHz payload of odd
/// length is refused after the silence and the sequence number were taken into account.
pub open spec fn ingest(
    expected: Option<u16>,
    queue: Seq<u8>,
    payload: Seq<u8>,
    seq: u16,
    is_24khz: bool,
) -> (Option<u16>, Seq<u8>, Result<(), FrameError>) {
    let q1 = queue + zeros(silence_len(expected, seq, payload.len(), is_24khz));
    let e1 = Some(seq_next(seq));
    if is_24khz && payload.len() % 2 != 0 {
        (e1, q1, Err(FrameError::OddDegradedPayload(payload.len() as u16)))
    } else {
        (e1, q1 + frame_audio(payload, is_24khz), Ok(()))
    }
}

/// How many bytes the driver reads in a phase.
pub open spec fn need_of(phase: ScanPhase) -> nat {
    match phase {
        ScanPhase::Idle => 0,
        ScanPhase::Magic => 1,
        ScanPhase::SecondMagic => 1,
        ScanPhase::Header => 5,
        ScanPhase::Payload { len, .. } => len as nat,
    }
}

/// The step announced in a phase.
pub open spec fn step_of(phase: ScanPhase) -> ReadStep {
    match phase {
        ScanPhase::Idle => ReadStep::Ready,
        ScanPhase::Magic => ReadStep::NeedHeader(1),
        ScanPhase::SecondMagic => ReadStep::NeedHeader(1),
        ScanPhase::Header => ReadStep::NeedHeader(5),
        ScanPhase::Payload { len, .. } => ReadStep::NeedPayload(len as usize),
    }
}

/// The phase after the queue was served or extended: done once `want` bytes are queued.
pub open spec fn after_queue(queue: Seq<u8>, want: nat) -> ScanPhase {
    if queue.len() >= want {
        ScanPhase::Idle
    } else {
        ScanPhase::Magic
    }
}

pub open spec fn header_version(vf: u8) -> u8 {
    (vf / 16) as u8
}

pub open spec fn be16(hi: u8, lo: u8) -> u16 {
    (hi * 256 + lo) as u16
}

/// The transition made when the bytes requested in `v.phase` arrive.
pub open spec fn feed_spec(v: HandlerView, bytes: Seq<u8>) -> (HandlerView, Result<(), FrameError>) {
    match v.phase {
        ScanPhase::Magic => {
            let next = if bytes[0] == MAGIC_0 {
                ScanPhase::SecondMagic
            } else {
                ScanPhase::Magic
            };
            (HandlerView { phase: next, ..v }, Ok(()))
        },
        ScanPhase::SecondMagic => {
            let next = if bytes[0] == MAGIC_1 {
                ScanPhase::Header
            } else {
                ScanPhase::Magic
            };
            (HandlerView { phase: next, ..v }, Ok(()))
        },
        ScanPhase::Header => {
            let version = header_version(bytes[0]);
            let seq = be16(bytes[1], bytes[2]);
            let len = be16(bytes[3], bytes[4]);
            if version != 1 {
                (HandlerView { phase: ScanPhase::Idle, ..v }, Err(FrameError::UnsupportedVersion(version)))
            } else if len == 0 {
                (HandlerView { phase: ScanPhase::Magic, ..v }, Ok(()))
            } else if len > MAX_PAYLOAD {
                (HandlerView { phase: ScanPhase::Idle, ..v }, Err(FrameError::PayloadTooLarge(len)))
            } else {
                (
                    HandlerView {
                        phase: ScanPhase::Payload { seq, is_24khz: bytes[0] % 2 == 1, len },
                        ..v
                    },
                    Ok(()),
                )
            }
        },
        ScanPhase::Payload { seq, is_24khz, .. } => {
            let (e1, q1, r) = ingest(v.expected_seq, v.queue, bytes, seq, is_24khz);
            match r {
                Err(e) => (
                    HandlerView { expected_seq: e1, queue: q1, phase: ScanPhase::Idle, want: v.want },
                    Err(e),
                ),
                Ok(()) => (
                    HandlerView {
                        expected_seq: e1,
                        queue: q1,
                        phase: after_queue(q1, v.want),
                        want: v.want,
                    },
                    Ok(()),
                ),
            }
        },
        ScanPhase::Idle => (v, Ok(())),
    }
}

/// The transition made when a read of `want` bytes starts.
pub open spec fn start_spec(v: HandlerView, want: nat) -> HandlerView {
    HandlerView { phase: after_queue(v.queue, want), want, ..v }
}

/// Assembles and checks the PCM frames of the Lampyris protocol and serves reads of
/// 48 kHz PCM from them.
pub struct ProtocolHandler {
    expected_seq: Option<u16>,
    rx_queue: Vec<u8>,
    phase: ScanPhase,
    want: usize,
}

impl View for ProtocolHandler {
    type V = HandlerView;

    closed spec fn view(&self) -> HandlerView {
        HandlerView {
            expected_seq: self.expected_seq,
            queue: self.rx_queue@,
            phase: self.phase,
            want: self.want as nat,
        }
    }
}

/// The invariant of a handler's view: a read in progress has fewer bytes queued than it
/// wants, wants no more than a slice can hold, and a pending payload is 1 to 4800 bytes.
pub open spec fn view_wf(v: HandlerView) -> bool {
    &&& v.want <= isize::MAX
    &&& v.phase !is Idle ==> v.queue.len() < v.want
    &&& v.phase matches ScanPhase::Payload { len, .. } ==> 1 <= len <= MAX_PAYLOAD
}

impl ProtocolHandler {
    /// Well-formedness of the handler.
    pub open spec fn wf(&self) -> bool {
        view_wf(self@)
    }

    /// Creates a handler that expects no particular sequence number and holds no audio.
    pub fn new() -> (h: Self)
        ensures
            h.wf(),
            h@.expected_seq is None,
            h@.queue == Seq::<u8>::empty(),
            h@.phase == ScanPhase::Idle,
            h@.want == 0,
    {
        ProtocolHandler { expected_seq: None, rx_queue: Vec::new(), phase: ScanPhase::Idle, want: 0 }
    }

    /// Starts a read that wants to hand out `want` bytes (the length of the caller's
    /// buffer, which as a slice length never exceeds `isize::MAX`). Any half-read frame of
    /// an earlier, abandoned read is forgotten.
    pub fn start_read(&mut self, want: usize) -> (step: ReadStep)
        requires
            old(self).wf(),
            want <= isize::MAX,
        ensures
            final(self).wf(),
            final(self)@ == start_spec(old(self)@, want as nat),
            step == step_of(final(self)@.phase),
    {
        self.want = want;
        if self.rx_queue.len() >= want {
            self.phase = ScanPhase::Idle;
            ReadStep::Ready
        } else {
            self.phase = ScanPhase::Magic;
            ReadStep::NeedHeader(1)
        }
    }

    /// Appends the audio of a complete frame, after the silence that stands for the frames
    /// missing before it.
    fn accept_frame(&mut self, payload: &[u8], seq: u16, is_24khz: bool) -> (r: Result<(), FrameError>)
        requires
            1 <= payload@.len() <= MAX_PAYLOAD,
            old(self).rx_queue@.len() < old(self).want,
            old(self).want <= isize::MAX,
        ensures
            ({
                let (e1, q1, r1) = ingest(old(self).expected_seq, old(self).rx_queue@, payload@, seq, is_24khz);
                &&& final(self).expected_seq == e1
                &&& final(self).rx_queue@ == q1
                &&& r == r1
            }),
            final(self).phase == old(self).phase,
            final(self).want == old(self).want,
    {
        let len = payload.len();
        if let Some(expected) = self.expected_seq {
            let gap: u16 = seq.wrapping_sub(expected);
            if 0 < gap && gap < MAX_GAP {
                let frame_size: usize = if is_24khz {
                    len * 2
                } else {
                    len
                };
                assert(gap as nat * frame_size as nat <= 3000 * 9600) by (nonlinear_arith)
                    requires
                        gap < 3000,
                        frame_size <= 9600,
                ;
                let total: usize = gap as usize * frame_size;
                let silence: usize = if total < MAX_SILENCE {
                    total
                } else {
                    MAX_SILENCE
                };
                push_zeros(&mut self.rx_queue, silence);
            }
        }
        self.expected_seq = Some(seq.wrapping_add(1));
        if is_24khz {
            if len % 2 != 0 {
                return Err(FrameError::OddDegradedPayload(len as u16));
            }
            push_upsampled(&mut self.rx_queue, payload);
        } else {
            push_bytes(&mut self.rx_queue, payload);
        }
        Ok(())
    }

    /// Feeds the bytes that the last step asked for and returns the next step.
    /// On an error the read in progress ends (the phase becomes `Idle`); what the frame
    /// already contributed to the queue and to the sequence tracking stays.
    pub fn feed(&mut self, bytes: &[u8]) -> (r: Result<ReadStep, FrameError>)
        requires
            old(self).wf(),
            old(self)@.phase !is Idle,
            bytes@.len() == need_of(old(self)@.phase),
        ensures
            final(self).wf(),
            final(self)@ == feed_spec(old(self)@, bytes@).0,
            match feed_spec(old(self)@, bytes@).1 {
                Ok(()) => r == Ok::<ReadStep, FrameError>(step_of(final(self)@.phase)),
                Err(e) => r == Err::<ReadStep, FrameError>(e),
            },
    {
        match self.phase {
            ScanPhase::Magic => {
                if bytes[0] == MAGIC_0 {
                    self.phase = ScanPhase::SecondMagic;
                }
                Ok(ReadStep::NeedHeader(1))
            },
            ScanPhase::SecondMagic => {
                if bytes[0] == MAGIC_1 {
                    self.phase = ScanPhase::Header;
                    Ok(ReadStep::NeedHeader(5))
                } else {
                    self.phase = ScanPhase::Magic;
                    Ok(ReadStep::NeedHeader(1))
                }
            },
            ScanPhase::Header => {
                let vf = bytes[0];
                let version: u8 = vf >> 4u8;
                assert(vf >> 4u8 == vf / 16) by (bit_vector);
                assert((vf & 1u8 != 0u8) == (vf % 2 == 1)) by (bit_vector);
                let seq: u16 = bytes[1] as u16 * 256 + bytes[2] as u16;
                let len: u16 = bytes[3] as u16 * 256 + bytes[4] as u16;
                if version != 1 {
                    self.phase = ScanPhase::Idle;
                    Err(FrameError::UnsupportedVersion(version))
                } else if len == 0 {
                    self.phase = ScanPhase::Magic;
                    Ok(ReadStep::NeedHeader(1))
                } else if len as usize > MAX_PAYLOAD {
                    self.phase = ScanPhase::Idle;
                    Err(FrameError::PayloadTooLarge(len))
                } else {
                    self.phase = ScanPhase::Payload { seq, is_24khz: vf & 1u8 != 0u8, len };
                    Ok(ReadStep::NeedPayload(len as usize))
                }
            },
            ScanPhase::Payload { seq, is_24khz, len: _ } => {
                match self.accept_frame(bytes, seq, is_24khz) {
                    Err(e) => {
                        self.phase = ScanPhase::Idle;
                        Err(e)
                    },
                    Ok(()) => {
                        if self.rx_queue.len() >= self.want {
                            self.phase = ScanPhase::Idle;
                            Ok(ReadStep::Ready)
                        } else {
                            self.phase = ScanPhase::Magic;
                            Ok(ReadStep::NeedHeader(1))
                        }
                    },
                }
            },
            ScanPhase::Idle => Ok(ReadStep::Ready),
        }
    }

    /// Hands out the oldest queued bytes: as many as fit in `buf` and are queued.
    pub fn take_into(&mut self, buf: &mut [u8]) -> (n: usize)
        requires
            old(self).wf(),
            old(self)@.phase is Idle,
        ensures
            final(self).wf(),
            n as nat == min_nat(old(buf)@.len(), old(self)@.queue.len()),
            final(buf)@.len() == old(buf)@.len(),
            final(buf)@.subrange(0, n as int) == old(self)@.queue.subrange(0, n as int),
            final(buf)@.subrange(n as int, old(buf)@.len() as int) == old(buf)@.subrange(
                n as int,
                old(buf)@.len() as int,
            ),
            final(self)@ == (HandlerView { queue: old(self)@.queue.subrange(n as int, old(self)@.queue.len() as int), ..old(self)@ }),
    {
        let to_read: usize = if buf.len() < self.rx_queue.len() {
            buf.len()
        } else {
            self.rx_queue.len()
        };
        let mut head = self.rx_queue.split_off(to_read);
        std::mem::swap(&mut head, &mut self.rx_queue);
        let mut i: usize = 0;
        while i < to_read
            invariant
                i <= to_read,
                to_read == head@.len(),
                to_read <= buf@.len(),
                buf@.len() == old(buf)@.len(),
                forall|j: int| 0 <= j < i ==> buf@[j] == head@[j],
                forall|j: int| to_read <= j < buf@.len() ==> buf@[j] == old(buf)@[j],
            decreases to_read - i,
        {
            buf[i] = head[i];
            i = i + 1;
        }
        assert(buf@.subrange(0, to_read as int) =~= head@);
        assert(buf@.subrange(to_read as int, buf@.len() as int) =~= old(buf)@.subrange(
            to_read as int,
            old(buf)@.len() as int,
        ));
        to_read
    }
}

/// Appends `n` zero bytes.
fn push_zeros(q: &mut Vec<u8>, n: usize)
    requires
        old(q)@.len() + n <= usize::MAX,
    ensures
        final(q)@ == old(q)@ + zeros(n as nat),
{
    let mut k: usize = 0;
    while k < n
        invariant
            k <= n,
            q@ == old(q)@ + zeros(k as nat),
        decreases n - k,
    {
        q.push(0u8);
        k = k + 1;
        assert(q@ =~= old(q)@ + zeros(k as nat));
    }
}

/// Appends the bytes of `p`.
fn push_bytes(q: &mut Vec<u8>, p: &[u8])
    ensures
        final(q)@ == old(q)@ + p@,
{
    let mut k: usize = 0;
    while k < p.len()
        invariant
            k <= p@.len(),
            q@ == old(q)@ + p@.subrange(0, k as int),
        decreases p@.len() - k,
    {
        q.push(p[k]);
        k = k + 1;
        assert(q@ =~= old(q)@ + p@.subrange(0, k as int));
    }
    assert(p@.subrange(0, p@.len() as int) =~= p@);
}

/// Appends `p` with every 2-byte sample repeated.
fn push_upsampled(q: &mut Vec<u8>, p: &[u8])
    requires
        p@.len() % 2 == 0,
    ensures
        final(q)@ == old(q)@ + upsample(p@),
{
    let mut k: usize = 0;
    while k < p.len()
        invariant
            k <= p@.len(),
            k % 2 == 0,
            p@.len() % 2 == 0,
            q@ == old(q)@ + upsample(p@).subrange(0, 2 * k as int),
        decreases p@.len() - k,
    {
        let a = p[k];
        let b = p[k + 1];
        q.push(a);
        q.push(b);
        q.push(a);
        q.push(b);
        assert(upsample(p@).subrange(0, 2 * (k + 2) as int) =~= upsample(p@).subrange(0, 2 * k as int)
            + seq![a, b, a, b]);
        k = k + 2;
    }
    assert(upsample(p@).subrange(0, 2 * p@.len() as int) =~= upsample(p@));
}

/// What a driver gets when it runs a handler over the bytes of `stream`: it reads what each
/// step asks for while the stream holds enough, and stops at `Ready`, at an error, or when
/// the stream runs short. The result is the final view, the number of bytes consumed and
/// the error, if any.
pub open spec fn drive(v: HandlerView, stream: Seq<u8>) -> (HandlerView, nat, Result<(), FrameError>)
    decreases stream.len(),
{
    let n = need_of(v.phase);
    if v.phase is Idle || n == 0 || stream.len() < n {
        (v, 0, Ok(()))
    } else {
        let (v1, r) = feed_spec(v, stream.take(n as int));
        match r {
            Err(e) => (v1, n, Err(e)),
            Ok(()) => {
                let (v2, c, r2) = drive(v1, stream.skip(n as int));
                (v2, n + c, r2)
            },
        }
    }
}

/// At 24 kHz every 16-bit sample of the payload appears twice in a row in the queued audio,
/// which is twice as long.
pub proof fn law_upsample_repeats_samples(p: Seq<u8>, k: int)
    requires
        p.len() % 2 == 0,
        0 <= k < p.len() / 2,
    ensures
        upsample(p).len() == 2 * p.len(),
        upsample(p).subrange(4 * k, 4 * k + 4) == seq![p[2 * k], p[2 * k + 1], p[2 * k], p[2 * k + 1]],
{
    let u = upsample(p);
    assert((4 * k) / 4 == k && (4 * k) % 2 == 0);
    assert((4 * k + 1) / 4 == k && (4 * k + 1) % 2 == 1);
    assert((4 * k + 2) / 4 == k && (4 * k + 2) % 2 == 0);
    assert((4 * k + 3) / 4 == k && (4 * k + 3) % 2 == 1);
    assert(u.subrange(4 * k, 4 * k + 4) =~= seq![p[2 * k], p[2 * k + 1], p[2 * k], p[2 * k + 1]]);
}

/// Sequence-gap concealment, stated from the inputs alone: when the payload of a frame with
/// sequence number `seq` and length `L` arrives and `e` was the expected sequence number,
/// the frames `g = (seq - e) mod 65536` ahead are lost when `0 < g < 3000`, and exactly
/// `min(g * L * r, 48000)` zero bytes (`r` = 2 at 24 kHz, else 1) join the queue before the
/// frame's 48 kHz audio, which is the payload itself, or at 24 kHz each 2-byte sample twice;
/// without a gap no zero is added. The next expected sequence number is `seq + 1 mod 65536`.
pub proof fn law_gap_silence_and_audio(v: HandlerView, payload: Seq<u8>)
    requires
        view_wf(v),
        v.phase is Payload,
        payload.len() == v.phase->len,
        v.phase->is_24khz ==> payload.len() % 2 == 0,
    ensures
        ({
            let seq = v.phase->seq;
            let is_24khz = v.phase->is_24khz;
            let len = payload.len() as int;
            let rate: int = if is_24khz { 2 } else { 1 };
            let lost: int = match v.expected_seq {
                None => 0,
                Some(e) => {
                    let g = (seq as int - e as int) % 65536;
                    if 0 < g && g < 3000 { g } else { 0 }
                },
            };
            let silence: int = if lost * len * rate < 48000 { lost * len * rate } else { 48000 };
            let (v1, r) = feed_spec(v, payload);
            let q = v.queue;
            let q1 = v1.queue;
            &&& r is Ok
            &&& v1.expected_seq == Some(((seq as int + 1) % 65536) as u16)
            &&& q1.len() == q.len() + silence + len * rate
            &&& q1.take(q.len() as int) == q
            &&& forall|i: int| q.len() <= i < q.len() + silence ==> q1[i] == 0u8
            &&& forall|j: int|
                0 <= j < len * rate ==> #[trigger] q1[q.len() + silence + j] == if is_24khz {
                    payload[(j / 4) * 2 + j % 2]
                } else {
                    payload[j]
                }
        }),
{
    let seq = v.phase->seq;
    let is_24khz = v.phase->is_24khz;
    let len = payload.len() as int;
    let (e1, q1, r) = ingest(v.expected_seq, v.queue, payload, seq, is_24khz);
    let sl = silence_len(v.expected_seq, seq, payload.len(), is_24khz);
    if let Some(e) = v.expected_seq {
        let g = (seq as int - e as int) % 65536;
        assert(seq_gap(e, seq) == g);
        if 0 < g && g < 3000 {
            let frame: int = if is_24khz { 2 * len } else { len };
            let rate: int = if is_24khz { 2 } else { 1 };
            assert(g * frame == g * len * rate) by (nonlinear_arith)
                requires
                    frame == len * rate,
            ;
            assert(g * len * rate >= g) by (nonlinear_arith)
                requires
                    g > 0,
                    len >= 1,
                    rate >= 1,
            ;
        }
    }
    assert(seq_next(seq) == ((seq as int + 1) % 65536) as u16);
    let q = v.queue;
    assert(q1 == q + zeros(sl) + frame_audio(payload, is_24khz));
    assert(q1.take(q.len() as int) =~= q);
}

/// The bytes of one frame: magic, flags byte, big-endian sequence number and length, payload.
pub open spec fn frame_bytes(ver_flags: u8, seq: u16, payload: Seq<u8>) -> Seq<u8> {
    seq![
        MAGIC_0,
        MAGIC_1,
        ver_flags,
        (seq / 256) as u8,
        (seq % 256) as u8,
        (payload.len() / 256) as u8,
        (payload.len() % 256) as u8,
    ] + payload
}

/// Bytes that resynchronisation discards: bytes other than `'M'`, and `'M'` followed by a
/// byte other than `'C'`.
pub open spec fn is_noise(g: Seq<u8>) -> bool
    decreases g.len(),
{
    if g.len() == 0 {
        true
    } else if g[0] != MAGIC_0 {
        is_noise(g.skip(1))
    } else {
        g.len() >= 2 && g[1] != MAGIC_1 && is_noise(g.skip(2))
    }
}

/// Resynchronisation: while a read looks for a frame, noise in front of the stream is
/// consumed and changes nothing else.
pub proof fn law_noise_is_skipped(v: HandlerView, g: Seq<u8>, s: Seq<u8>)
    requires
        view_wf(v),
        v.phase == ScanPhase::Magic,
        is_noise(g),
    ensures
        drive(v, g + s) == ({
            let (v2, c, r) = drive(v, s);
            (v2, c + g.len(), r)
        }),
    decreases g.len(),
{
    if g.len() == 0 {
        assert(g + s =~= s);
    } else if g[0] != MAGIC_0 {
        let st = g + s;
        assert(st.take(1)[0] == g[0]);
        assert(feed_spec(v, st.take(1)).0 == v);
        assert(st.skip(1) =~= g.skip(1) + s);
        law_noise_is_skipped(v, g.skip(1), s);
        assert(drive(v, st) == ({
            let (v2, c, r) = drive(v, st.skip(1));
            (v2, 1 + c, r)
        }));
    } else {
        let st = g + s;
        let v1 = HandlerView { phase: ScanPhase::SecondMagic, ..v };
        assert(st.take(1)[0] == g[0]);
        assert(feed_spec(v, st.take(1)).0 == v1);
        assert(st.skip(1).take(1)[0] == g[1]);
        assert(feed_spec(v1, st.skip(1).take(1)).0 == v);
        assert(st.skip(1).skip(1) =~= g.skip(2) + s);
        law_noise_is_skipped(v, g.skip(2), s);
        assert(drive(v1, st.skip(1)) == ({
            let (v2, c, r) = drive(v, st.skip(1).skip(1));
            (v2, 1 + c, r)
        }));
        assert(drive(v, st) == ({
            let (v2, c, r) = drive(v1, st.skip(1));
            (v2, 1 + c, r)
        }));
    }
}

/// A well-formed version-1 frame, met while a read looks for a frame, is read whole: its
/// audio (after the silence for a sequence gap) joins the queue and the read goes on with the
/// bytes that follow it, or ends if enough audio is queued.
pub proof fn law_frame_is_read(v: HandlerView, is_24khz: bool, seq: u16, payload: Seq<u8>, rest: Seq<u8>)
    requires
        view_wf(v),
        v.phase == ScanPhase::Magic,
        1 <= payload.len() <= MAX_PAYLOAD,
    ensures
        drive(v, frame_bytes(if is_24khz { 0x11u8 } else { 0x10u8 }, seq, payload) + rest) == ({
            let (e1, q1, r) = ingest(v.expected_seq, v.queue, payload, seq, is_24khz);
            let total = 7 + payload.len();
            match r {
                Err(e) => (HandlerView { expected_seq: e1, queue: q1, phase: ScanPhase::Idle, want: v.want }, total, Err(e)),
                Ok(()) => {
                    let v1 = HandlerView { expected_seq: e1, queue: q1, phase: after_queue(q1, v.want), want: v.want };
                    let (v2, c, r2) = drive(v1, rest);
                    (v2, total + c, r2)
                },
            }
        }),
{
    let vf: u8 = if is_24khz { 0x11u8 } else { 0x10u8 };
    let f = frame_bytes(vf, seq, payload);
    let st = f + rest;
    let n = payload.len();
    assert(header_version(vf) == 1);
    assert(be16((seq / 256) as u8, (seq % 256) as u8) == seq);
    assert(be16((n / 256) as u8, (n % 256) as u8) == n);
    let v1 = HandlerView { phase: ScanPhase::SecondMagic, ..v };
    let v2 = HandlerView { phase: ScanPhase::Header, ..v };
    let v3 = HandlerView { phase: ScanPhase::Payload { seq, is_24khz, len: n as u16 }, ..v };
    assert(st.take(1) =~= seq![MAGIC_0]);
    assert(st.skip(1).take(1) =~= seq![MAGIC_1]);
    assert(st.skip(1).skip(1).take(5) =~= seq![vf, (seq / 256) as u8, (seq % 256) as u8, (n / 256) as u8, (n % 256) as u8]);
    assert(st.skip(1).skip(1).skip(5).take(n as int) =~= payload);
    assert(st.skip(1).skip(1).skip(5).skip(n as int) =~= rest);
    assert(feed_spec(v, st.take(1)).0 == v1);
    assert(feed_spec(v1, st.skip(1).take(1)).0 == v2);
    assert(feed_spec(v2, st.skip(1).skip(1).take(5)).0 == v3);
    assert(feed_spec(v2, st.skip(1).skip(1).take(5)).1 is Ok);
    let st1 = st.skip(1);
    let st2 = st1.skip(1);
    let st3 = st2.skip(5);
    assert(st3.take(n as int) =~= payload);
    assert(st3.skip(n as int) =~= rest);
    assert(drive(v, st) == ({
        let (w, c, r) = drive(v1, st1);
        (w, 1 + c, r)
    }));
    assert(drive(v1, st1) == ({
        let (w, c, r) = drive(v2, st2);
        (w, 1 + c, r)
    }));
    assert(drive(v2, st2) == ({
        let (w, c, r) = drive(v3, st3);
        (w, 5 + c, r)
    }));
    let (e1, q1, r) = ingest(v.expected_seq, v.queue, payload, seq, is_24khz);
    assert(feed_spec(v3, st3.take(n as int)) == feed_spec(v3, payload));
    match r {
        Err(e) => {
            assert(drive(v3, st3) == (HandlerView { expected_seq: e1, queue: q1, phase: ScanPhase::Idle, want: v.want }, n, Err::<(), FrameError>(e)));
        },
        Ok(()) => {
            let v4 = HandlerView { expected_seq: e1, queue: q1, phase: after_queue(q1, v.want), want: v.want };
            assert(drive(v3, st3) == ({
                let (w, c, r2) = drive(v4, rest);
                (w, n + c, r2)
            }));
        },
    }
}


/// What a read gives back of a write: a fresh handler asked for exactly the audio of one
/// well-formed frame reads that frame and then holds exactly its audio (the payload, or at
/// 24 kHz the payload with every sample doubled), ready to be handed out.
pub proof fn law_first_frame_round_trip(is_24khz: bool, seq: u16, payload: Seq<u8>, rest: Seq<u8>)
    requires
        1 <= payload.len() <= MAX_PAYLOAD,
        is_24khz ==> payload.len() % 2 == 0,
    ensures
        ({
            let fresh = HandlerView { expected_seq: None, queue: Seq::empty(), phase: ScanPhase::Idle, want: 0 };
            let v = start_spec(fresh, frame_audio(payload, is_24khz).len());
            let (v2, consumed, r) = drive(v, frame_bytes(if is_24khz { 0x11u8 } else { 0x10u8 }, seq, payload) + rest);
            &&& r is Ok
            &&& consumed == 7 + payload.len()
            &&& v2.phase == ScanPhase::Idle
            &&& v2.queue == frame_audio(payload, is_24khz)
            &&& v2.expected_seq == Some(seq_next(seq))
        }),
{
    let fresh = HandlerView { expected_seq: None, queue: Seq::empty(), phase: ScanPhase::Idle, want: 0 };
    let audio = frame_audio(payload, is_24khz);
    let v = start_spec(fresh, audio.len());
    assert(audio.len() > 0);
    assert(v.phase == ScanPhase::Magic);
    law_frame_is_read(v, is_24khz, seq, payload, rest);
    assert(Seq::<u8>::empty() + zeros(0) + audio =~= audio);
}


/// One read of `want` bytes by the driver over `stream`: the final view (with the handed
/// out bytes removed from the queue), the bytes consumed, and the bytes handed out;
/// `Ok(None)` when the stream ran short before enough audio was queued.
pub open spec fn read_spec(v: HandlerView, want: nat, stream: Seq<u8>) -> (HandlerView, nat, Result<Option<Seq<u8>>, FrameError>) {
    let (w, c, r) = drive(start_spec(v, want), stream);
    match r {
        Err(e) => (w, c, Err(e)),
        Ok(()) => if w.phase is Idle {
            (HandlerView { queue: w.queue.skip(want as int), ..w }, c, Ok(Some(w.queue.take(want as int))))
        } else {
            (w, c, Ok(None))
        },
    }
}

/// The view with its first `d` queued bytes gone and `d` bytes less wanted.
pub open spec fn shift_view(v: HandlerView, d: nat) -> HandlerView {
    HandlerView { queue: v.queue.skip(d as int), want: (v.want - d) as nat, ..v }
}

/// Running the handler only appends to the queue and keeps the wanted amount.
proof fn lemma_drive_appends(v: HandlerView, s: Seq<u8>)
    ensures
        drive(v, s).0.want == v.want,
        drive(v, s).0.queue.len() >= v.queue.len(),
        drive(v, s).0.queue.take(v.queue.len() as int) == v.queue,
        drive(v, s).1 <= s.len(),
        drive(v, s).2 is Ok && drive(v, s).0.phase is Idle && (v.phase is Idle ==> v.queue.len() >= v.want)
            ==> drive(v, s).0.queue.len() >= v.want,
    decreases s.len(),
{
    let n = need_of(v.phase);
    if v.phase is Idle || n == 0 || s.len() < n {
        assert(v.queue.take(v.queue.len() as int) =~= v.queue);
    } else {
        let (v1, r) = feed_spec(v, s.take(n as int));
        assert(v1.want == v.want);
        assert(v1.queue.len() >= v.queue.len() && v1.queue.take(v.queue.len() as int) =~= v.queue);
        if r is Ok {
            lemma_drive_appends(v1, s.skip(n as int));
            let q2 = drive(v1, s.skip(n as int)).0.queue;
            assert(q2.take(v.queue.len() as int) =~= q2.take(v1.queue.len() as int).take(v.queue.len() as int));
        }
    }
}

/// Handing out the first `d` queued bytes commutes with running the handler.
proof fn lemma_drive_shift(v: HandlerView, d: nat, s: Seq<u8>)
    requires
        d <= v.queue.len(),
        d <= v.want,
    ensures
        drive(shift_view(v, d), s) == ({
            let (w, c, r) = drive(v, s);
            (shift_view(w, d), c, r)
        }),
    decreases s.len(),
{
    let vs = shift_view(v, d);
    let n = need_of(v.phase);
    if v.phase is Idle || n == 0 || s.len() < n {
    } else {
        let b = s.take(n as int);
        let (v1, r) = feed_spec(v, b);
        let (vs1, rs) = feed_spec(vs, b);
        if let ScanPhase::Payload { seq, is_24khz, .. } = v.phase {
            let (e1, q1, ri) = ingest(v.expected_seq, v.queue, b, seq, is_24khz);
            let (es1, qs1, ris) = ingest(vs.expected_seq, vs.queue, b, seq, is_24khz);
            assert(qs1 =~= q1.skip(d as int));
            assert(ri == ris && e1 == es1);
        }
        assert(vs1 == shift_view(v1, d));
        assert(rs == r);
        if r is Ok {
            lemma_drive_shift(v1, d, s.skip(n as int));
        }
    }
}

/// The view with `big` bytes wanted; the phase follows the queue when no read is going on.
pub open spec fn with_want(v: HandlerView, big: nat) -> HandlerView {
    HandlerView {
        want: big,
        phase: if v.phase is Idle {
            after_queue(v.queue, big)
        } else {
            v.phase
        },
        ..v
    }
}

/// A read that wants more goes on, where a read that wants less ended, with the bytes
/// that follow.
proof fn lemma_drive_extend(v: HandlerView, big: nat, s: Seq<u8>)
    requires
        v.want <= big,
        v.phase !is Idle,
        drive(v, s).2 is Ok,
        drive(v, s).0.phase is Idle,
    ensures
        drive(with_want(v, big), s) == ({
            let (w, c, r) = drive(v, s);
            let (w2, c2, r2) = drive(with_want(w, big), s.skip(c as int));
            (w2, c + c2, r2)
        }),
    decreases s.len(),
{
    let vb = with_want(v, big);
    let n = need_of(v.phase);
    if n == 0 || s.len() < n {
    } else {
        let b = s.take(n as int);
        let (v1, r) = feed_spec(v, b);
        let (vb1, rb) = feed_spec(vb, b);
        assert(rb == r);
        assert(r is Ok);
        assert(vb1 == with_want(v1, big));
        let st = s.skip(n as int);
        if v1.phase is Idle {
            assert(drive(v1, st) == (v1, 0nat, Ok::<(), FrameError>(())));
            assert(s.skip(n as int) =~= st);
        } else {
            lemma_drive_extend(v1, big, st);
            lemma_drive_appends(v1, st);
            let c1 = drive(v1, st).1;
            assert(st.skip(c1 as int) =~= s.skip((n + c1) as int));
        }
    }
}

/// Reads split into pieces hand out the same bytes as one read: when a read of `k1` bytes
/// succeeds, a read of `k1 + k2` bytes from the same state over the same bytes ends as the
/// next read of `k2` bytes does, with the same error or the same consumption, and hands out
/// the first read's bytes followed by the second's; what is not handed out stays queued in
/// order.
pub proof fn law_split_reads(v: HandlerView, k1: nat, k2: nat, s: Seq<u8>)
    requires
        view_wf(v),
        k1 > 0,
        k2 > 0,
        read_spec(v, k1, s).2 is Ok,
        read_spec(v, k1, s).2->Ok_0 is Some,
    ensures
        ({
            let (u, c1, r1) = read_spec(v, k1, s);
            let b1 = r1->Ok_0->Some_0;
            let (u2, c2, r2) = read_spec(u, k2, s.skip(c1 as int));
            let (x, c, r) = read_spec(v, k1 + k2, s);
            &&& b1.len() == k1
            &&& c == c1 + c2
            &&& (r2 matches Err(e) ==> r == Err::<Option<Seq<u8>>, FrameError>(e))
            &&& (r2 matches Ok(None) ==> r == Ok::<Option<Seq<u8>>, FrameError>(None))
            &&& (r2 matches Ok(Some(b2)) ==> {
                &&& b2.len() == k2
                &&& r == Ok::<Option<Seq<u8>>, FrameError>(Some(b1 + b2))
                &&& x.queue == u2.queue
                &&& x.expected_seq == u2.expected_seq
            })
        }),
{
    let k = k1 + k2;
    let v1 = start_spec(v, k1);
    let vk = start_spec(v, k);
    let (w1, c1, r1) = drive(v1, s);
    assert(r1 is Ok && w1.phase is Idle);
    lemma_drive_appends(v1, s);
    assert(w1.queue.len() >= k1) by {
        if v1.phase is Idle {
        } else {
        }
    }
    // The read of k bytes goes on from where the read of k1 bytes ended.
    let x0 = with_want(w1, k);
    if v1.phase is Idle {
        assert(drive(v1, s) == (v1, 0nat, Ok::<(), FrameError>(())));
        assert(vk == x0);
        assert(s.skip(0) =~= s);
    } else {
        assert(vk == with_want(v1, k));
        lemma_drive_extend(v1, k, s);
    }
    assert(drive(vk, s) == ({
        let (w2, c2, r2) = drive(x0, s.skip(c1 as int));
        (w2, c1 + c2, r2)
    }));
    // The second read is the rest of that read with the first k1 bytes handed out.
    let u = HandlerView { queue: w1.queue.skip(k1 as int), ..w1 };
    let v2 = start_spec(u, k2);
    assert(w1.want == k1);
    assert(v2 == shift_view(x0, k1));
    let s2 = s.skip(c1 as int);
    lemma_drive_shift(x0, k1, s2);
    lemma_drive_appends(x0, s2);
    let (wq, cq, rq) = drive(x0, s2);
    let q = wq.queue;
    assert(q.take(w1.queue.len() as int) == w1.queue);
    if rq is Ok && wq.phase is Idle {
        assert(q.len() >= k);
        assert(q.take(k1 as int) =~= w1.queue.take(k1 as int));
        assert(q.take(k as int) =~= q.take(k1 as int) + q.skip(k1 as int).take(k2 as int));
        assert(q.skip(k as int) =~= q.skip(k1 as int).skip(k2 as int));
    }
}

} // verus!
