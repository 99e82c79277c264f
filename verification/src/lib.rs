//! Verified core of two phone-as-microphone clients: the Lampyris 'MC' framing protocol
//! with PIN pairing over SRP and certificate pinning, and the WO Mic protocol; PCM sample
//! handling, the jitter-buffer and reconnection policies, and the Windows driver request.
pub mod auth;
pub mod connection;
pub mod crypto;
pub mod driver;
pub mod jitter;
pub mod pcm;
pub mod protocol;
pub mod text;
pub mod tofu;
pub mod womic;
