//! The contract with the Windows Lampyris microphone driver: the I/O control code that
//! pushes audio and the layout of the buffer it carries.
use vstd::prelude::*;

verus! {

/// Device type of the Lampyris microphone.
pub const FILE_DEVICE_LAMPYRIS: u32 = 0x8001;

/// Function number of "push audio".
pub const LAMPYRIS_FUNC_PUSH_AUDIO: u32 = 0x802;

/// Buffered transfer method.
pub const METHOD_BUFFERED: u32 = 0;

/// Write access.
pub const FILE_WRITE_ACCESS: u32 = 2;

/// Capacity in bytes of the audio buffer of one request.
pub const LAMPYRIS_MAX_AUDIO_PAYLOAD: usize = 4800;

/// Most samples one request carries.
pub const MAX_SAMPLES_PER_PUSH: usize = 2400;

/// Builds a Windows device I/O control code from its four fields.
pub fn ctl_code(device_type: u32, function: u32, method: u32, access: u32) -> (code: u32)
    ensures
        code == ((device_type << 16u32) | (access << 14u32) | (function << 2u32) | method),
{
    (device_type << 16u32) | (access << 14u32) | (function << 2u32) | method
}

/// The control code of the "push audio" request.
pub fn ioctl_push_audio() -> (code: u32)
    ensures
        code == 0x8001A008,
{
    let code = ctl_code(FILE_DEVICE_LAMPYRIS, LAMPYRIS_FUNC_PUSH_AUDIO, METHOD_BUFFERED, FILE_WRITE_ACCESS);
    assert(((0x8001u32 << 16u32) | (2u32 << 14u32) | (0x802u32 << 2u32) | 0u32) == 0x8001A008u32) by (bit_vector);
    code
}

/// The request buffer: the byte count as a little-endian 32-bit integer, then a
/// 4800-byte data area holding the PCM bytes followed by zeros.
pub open spec fn push_request(pcm: Seq<u8>) -> Seq<u8> {
    let n = pcm.len();
    seq![(n % 256) as u8, ((n / 256) % 256) as u8, ((n / 65536) % 256) as u8, (n / 16777216) as u8]
        + pcm + Seq::new((LAMPYRIS_MAX_AUDIO_PAYLOAD - n) as nat, |i: int| 0u8)
}

/// The layout of a "push audio" request, stated byte by byte: 4 + 4800 bytes; the first four
/// are the PCM byte count, little-endian; the data area holds every PCM byte at its own
/// offset and zeros after the last one.
pub proof fn law_push_request_layout(pcm: Seq<u8>)
    requires
        pcm.len() <= LAMPYRIS_MAX_AUDIO_PAYLOAD,
    ensures
        ({
            let req = push_request(pcm);
            &&& req.len() == 4 + 4800
            &&& req[0] + 256 * req[1] + 65536 * req[2] + 16777216 * req[3] == pcm.len()
            &&& forall|i: int| 0 <= i < pcm.len() ==> #[trigger] req[4 + i] == pcm[i]
            &&& forall|i: int| pcm.len() <= i < 4800 ==> #[trigger] req[4 + i] == 0u8
        }),
{
    let n = pcm.len();
    let req = push_request(pcm);
    assert(n / 16777216 == 0);
    assert(((n / 256) % 256) * 256 + n % 256 == n % 65536);
    assert(((n / 65536) % 256) * 65536 + n % 65536 == n);
    assert forall|i: int| 0 <= i < pcm.len() implies #[trigger] req[4 + i] == pcm[i] by {}
    assert forall|i: int| pcm.len() <= i < 4800 implies #[trigger] req[4 + i] == 0u8 by {}
}

/// Lays out the buffer of a "push audio" request for the given PCM bytes.
pub fn encode_push_request(pcm: &[u8]) -> (req: Vec<u8>)
    requires
        pcm@.len() <= LAMPYRIS_MAX_AUDIO_PAYLOAD,
    ensures
        req@ == push_request(pcm@),
        req@.len() == 4 + LAMPYRIS_MAX_AUDIO_PAYLOAD,
{
    let n = pcm.len();
    let mut req: Vec<u8> = Vec::new();
    req.push((n % 256) as u8);
    req.push(((n / 256) % 256) as u8);
    req.push(((n / 65536) % 256) as u8);
    req.push((n / 16777216) as u8);
    let mut k: usize = 0;
    while k < n
        invariant
            n == pcm@.len(),
            k <= n,
            req@ == seq![(n % 256) as u8, ((n / 256) % 256) as u8, ((n / 65536) % 256) as u8, (n / 16777216) as u8]
                + pcm@.subrange(0, k as int),
        decreases n - k,
    {
        req.push(pcm[k]);
        k = k + 1;
    }
    let mut z: usize = n;
    while z < LAMPYRIS_MAX_AUDIO_PAYLOAD
        invariant
            n == pcm@.len(),
            n <= z <= LAMPYRIS_MAX_AUDIO_PAYLOAD,
            req@ == seq![(n % 256) as u8, ((n / 256) % 256) as u8, ((n / 65536) % 256) as u8, (n / 16777216) as u8]
                + pcm@ + Seq::new((z - n) as nat, |i: int| 0u8),
        decreases LAMPYRIS_MAX_AUDIO_PAYLOAD - z,
    {
        req.push(0u8);
        z = z + 1;
        assert(req@ =~= seq![(n % 256) as u8, ((n / 256) % 256) as u8, ((n / 65536) % 256) as u8, (n / 16777216) as u8]
                + pcm@ + Seq::new((z - n) as nat, |i: int| 0u8));
    }
    req
}

} // verus!
