//! The jitter buffer policy of the audio sinks: hold playback back until enough samples
//! are queued, play what is queued, and go back to buffering when the queue runs dry.
use vstd::prelude::*;

verus! {

/// Decides, each time the audio device wants samples, how many queued samples to play.
pub struct JitterBuffer {
    is_buffering: bool,
    threshold: usize,
}

impl JitterBuffer {
    /// Whether playback is held back.
    pub closed spec fn buffering(&self) -> bool {
        self.is_buffering
    }

    /// Number of queued samples that ends buffering.
    pub closed spec fn threshold(&self) -> nat {
        self.threshold as nat
    }

    /// Whether playback is held back.
    pub fn is_buffering(&self) -> (b: bool)
        ensures
            b == self.buffering(),
    {
        self.is_buffering
    }

    /// A policy that buffers `threshold` samples before it plays.
    pub fn new(threshold: usize) -> (j: Self)
        ensures
            j.buffering(),
            j.threshold() == threshold,
    {
        JitterBuffer { is_buffering: true, threshold }
    }

    /// The policy of the PipeWire sink: 10 ms of audio at `sample_rate` before playback.
    pub fn for_pipewire(sample_rate: u32) -> (j: Self)
        ensures
            j.buffering(),
            j.threshold() == sample_rate / 100,
    {
        Self::new((sample_rate / 100) as usize)
    }

    /// The policy of the Windows driver sink: 50 ms of audio at `sample_rate` before playback.
    pub fn for_driver(sample_rate: u32) -> (j: Self)
        ensures
            j.buffering(),
            j.threshold() == sample_rate / 20,
    {
        Self::new((sample_rate / 20) as usize)
    }

    /// Called when the device asks for `requested` samples and `occupied` are queued.
    /// Buffering ends once `occupied` reaches the threshold; playing turns into buffering
    /// when nothing is queued. Returns how many samples to play now: none while buffering,
    /// else as many as are both requested and queued.
    pub fn poll(&mut self, occupied: usize, requested: usize) -> (n: usize)
        ensures
            final(self).threshold() == old(self).threshold(),
            final(self).buffering() == if old(self).buffering() {
                occupied < old(self).threshold()
            } else {
                occupied == 0
            },
            n == if final(self).buffering() {
                0
            } else if requested <= occupied {
                requested
            } else {
                occupied
            },
            n <= occupied,
            n <= requested,
            old(self).threshold() > 0 && occupied == 0 ==> final(self).buffering() && n == 0,
    {
        if self.is_buffering {
            if occupied >= self.threshold {
                self.is_buffering = false;
            }
        } else if occupied == 0 {
            self.is_buffering = true;
        }
        if self.is_buffering {
            0
        } else if requested <= occupied {
            requested
        } else {
            occupied
        }
    }
}

} // verus!
