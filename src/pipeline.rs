//! Downstream audio capabilities and the data they exchange.

use vstd::prelude::*;
use crate::vad_asr::frames_view;

verus! {

/// Mailbox size of a capability that hands frames to an outside service.
pub const CAPABILITY_MAILBOX: usize = 100;

/// Stage of a conversation round.
#[derive(Debug, Clone, Copy, PartialEq, Eq, Structural)]
pub enum PipelineState {
    Idle,
    Asring,
    LLMing,
    TTSing,
}

/// A chunk of PCM audio and how long it plays.
#[derive(Debug)]
pub struct AudioData {
    pub data: Vec<i16>,
    pub duration: std::time::Duration,
}

/// A speech client that does nothing.
pub struct NopClient {}

impl NopClient {
    pub fn new() -> (r: Self) {
        NopClient {}
    }
}

/// Why a capability did not take a frame.
#[derive(Debug, Clone, Copy, PartialEq, Eq, Structural)]
pub enum CapabilityError {
    /// Its mailbox is full; the frame is dropped.
    Busy,
}

/// Something downstream of the VAD stage: it takes one PCM frame at a time,
/// in bounded time.
pub trait AudioCapability {
    fn process(&mut self, pcm_data: &[i16]) -> Result<(), CapabilityError>;
}

/// The ASR sink: frames wait in a bounded mailbox until the task that
/// streams to the ASR service drains them.
pub struct AsrProcessor {
    pending: Vec<Vec<i16>>,
    capacity: usize,
}

impl AsrProcessor {
    /// The frames waiting, oldest first.
    pub closed spec fn queued(&self) -> Seq<Seq<i16>> {
        frames_view(self.pending@)
    }

    pub closed spec fn limit(&self) -> nat {
        self.capacity as nat
    }

    /// An empty sink holding at most `capacity` frames.
    pub fn new(capacity: usize) -> (r: Self)
        ensures
            r.queued() == Seq::<Seq<i16>>::empty(),
            r.limit() == capacity,
    {
        let r = AsrProcessor { pending: Vec::new(), capacity };
        assert(r.queued() =~= Seq::<Seq<i16>>::empty());
        r
    }

    /// Queues a frame, or reports `Busy` and drops it when the mailbox is
    /// full.
    pub fn accept(&mut self, pcm_data: &[i16]) -> (r: Result<(), CapabilityError>)
        ensures
            final(self).limit() == old(self).limit(),
            old(self).queued().len() < old(self).limit() ==> r is Ok && final(self).queued()
                == old(self).queued().push(pcm_data@),
            old(self).queued().len() >= old(self).limit() ==> r == Err::<(), CapabilityError>(
                CapabilityError::Busy,
            ) && final(self).queued() == old(self).queued(),
    {
        if self.pending.len() < self.capacity {
            let ghost before = self.queued();
            self.pending.push(vstd::slice::slice_to_vec(pcm_data));
            assert(self.queued() =~= before.push(pcm_data@));
            Ok(())
        } else {
            Err(CapabilityError::Busy)
        }
    }

    /// Hands out every queued frame, oldest first.
    pub fn drain(&mut self) -> (r: Vec<Vec<i16>>)
        ensures
            frames_view(r@) == old(self).queued(),
            final(self).queued() == Seq::<Seq<i16>>::empty(),
            final(self).limit() == old(self).limit(),
    {
        let r = self.pending.split_off(0);
        assert(self.queued() =~= Seq::<Seq<i16>>::empty());
        r
    }
}

impl AudioCapability for AsrProcessor {
    /// Queues a frame, or reports `Busy` and drops it when the mailbox is
    /// full.
    fn process(&mut self, pcm_data: &[i16]) -> (r: Result<(), CapabilityError>)
        ensures
            final(self).limit() == old(self).limit(),
            old(self).queued().len() < old(self).limit() ==> r is Ok && final(self).queued()
                == old(self).queued().push(pcm_data@),
            old(self).queued().len() >= old(self).limit() ==> r == Err::<(), CapabilityError>(
                CapabilityError::Busy,
            ) && final(self).queued() == old(self).queued(),
    {
        self.accept(pcm_data)
    }
}

} // verus!
