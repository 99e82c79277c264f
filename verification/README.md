# lampyris

Verified core of two phone-as-microphone clients for Linux:

* **Lampyris** dials the Sonus Android app over TLS (trust-on-first-use certificate
  pinning), pairs with a PIN over SRP-6a, and receives 16-bit PCM in `'MC'` frames
  (`src/protocol.rs`, `src/auth.rs`, `src/tofu.rs`).
* **WOMIC** speaks the WO Mic protocol: a fixed handshake, then `0x04`-marked audio
  packets with a 24-bit length (`src/womic.rs`).

The protocol handlers hold no sockets: each tells its driver how many bytes to read, is fed
them, and says what comes next. Their contracts are stated over abstract views, and the
laws of the protocols (resynchronisation, frame reading, upsampling, the SRP exchange,
PCM round trips) are proof functions next to them. `src/pcm.rs`, `src/jitter.rs`,
`src/driver.rs` and `src/connection.rs` hold the sample handling, the jitter-buffer policy,
the Windows driver request layout and the reconnection policy. `src/crypto.rs` holds the
calls into `sha2`, `hex`, `subtle` and `srp`, with the contracts they are trusted for.

`app/` is the command-line program around the library: sockets, TLS, `adb`, PipeWire,
Opus and the floating-point audio path.
