//! Media ingress after decoding: PCM framing, the pre-roll buffer and the
//! VAD stage that decides which frames reach the downstream capabilities.
//! The VAD model itself is outside; the stage takes its verdict per frame.

use vstd::prelude::*;

verus! {

/// Samples in one 32 ms frame at 16 kHz.
pub const SAMPLES_PER_FRAME: usize = 512;

/// Frames the pre-roll buffer holds.
pub const PRE_ROLL_FRAMES: usize = 100;

/// The VAD model's verdict on one frame.
#[derive(Debug, Clone, Copy, PartialEq, Eq, Structural)]
pub enum SpeechState {
    Silent,
    StartSpeaking,
    Speaking,
    StopSpeaking,
}

/// What the stage hands downstream.
pub enum AudioOut {
    Frame { samples: Vec<i16> },
    /// The current utterance is complete.
    EndOfUtterance,
}

/// An output with its samples as a sequence.
pub enum AudioOutView {
    Frame { samples: Seq<i16> },
    EndOfUtterance,
}

impl View for AudioOut {
    type V = AudioOutView;

    open spec fn view(&self) -> AudioOutView {
        match self {
            AudioOut::Frame { samples } => AudioOutView::Frame { samples: samples@ },
            AudioOut::EndOfUtterance => AudioOutView::EndOfUtterance,
        }
    }
}

pub open spec fn outs_view(v: Seq<AudioOut>) -> Seq<AudioOutView> {
    v.map_values(|o: AudioOut| o@)
}

pub open spec fn frames_view(v: Seq<Vec<i16>>) -> Seq<Seq<i16>> {
    v.map_values(|f: Vec<i16>| f@)
}

/// The pre-roll buffer: the most recent frames, at most `max_cache_size`,
/// oldest first.
pub struct AudioCache {
    buffer: Vec<Vec<i16>>,
    max_cache_size: usize,
}

impl AudioCache {
    /// The frames held, oldest first.
    pub closed spec fn frames(&self) -> Seq<Seq<i16>> {
        frames_view(self.buffer@)
    }

    pub closed spec fn capacity(&self) -> nat {
        self.max_cache_size as nat
    }

    pub open spec fn wf(&self) -> bool {
        self.frames().len() <= self.capacity()
    }

    /// An empty buffer for at most `max_cache_size` frames.
    pub fn new(max_cache_size: usize) -> (r: Self)
        ensures
            r.frames() == Seq::<Seq<i16>>::empty(),
            r.capacity() == max_cache_size,
            r.wf(),
    {
        let r = AudioCache { buffer: Vec::new(), max_cache_size };
        assert(r.frames() =~= Seq::<Seq<i16>>::empty());
        r
    }

    /// Keeps `frame` as the newest; when the buffer is full the oldest frame
    /// makes room, and false is returned.
    pub fn push(&mut self, frame: &[i16]) -> (r: bool)
        requires
            old(self).wf(),
        ensures
            final(self).wf(),
            final(self).capacity() == old(self).capacity(),
            old(self).capacity() == 0 ==> final(self).frames() == old(self).frames() && !r,
            old(self).capacity() > 0 ==> {
                let pushed = old(self).frames().push(frame@);
                &&& r == (old(self).frames().len() < old(self).capacity())
                &&& final(self).frames() == if r {
                    pushed
                } else {
                    pushed.drop_first()
                }
            },
    {
        if self.max_cache_size == 0 {
            return false;
        }
        let ghost before = self.frames();
        let kept = self.buffer.len() < self.max_cache_size;
        self.buffer.push(vstd::slice::slice_to_vec(frame));
        assert(self.frames() =~= before.push(frame@));
        if !kept {
            self.buffer.remove(0);
            assert(self.frames() =~= before.push(frame@).drop_first());
        }
        kept
    }

    /// Number of frames held.
    pub fn len(&self) -> (r: usize)
        ensures
            r == self.frames().len(),
    {
        self.buffer.len()
    }

    /// Drops every frame.
    pub fn clear(&mut self)
        ensures
            final(self).frames() == Seq::<Seq<i16>>::empty(),
            final(self).capacity() == old(self).capacity(),
            final(self).wf(),
    {
        self.buffer.clear();
        assert(self.frames() =~= Seq::<Seq<i16>>::empty());
    }

    /// Hands out every frame, oldest first, and leaves the buffer empty.
    pub fn take_all(&mut self) -> (r: Vec<Vec<i16>>)
        ensures
            frames_view(r@) == old(self).frames(),
            final(self).frames() == Seq::<Seq<i16>>::empty(),
            final(self).capacity() == old(self).capacity(),
            final(self).wf(),
    {
        let r = self.buffer.split_off(0);
        assert(self.frames() =~= Seq::<Seq<i16>>::empty());
        r
    }
}

/// The VAD stage: frames are held in the pre-roll buffer while silent; at the
/// onset of speech the held frames go downstream before the current one,
/// and at the end of speech the utterance is committed.
pub struct VadProcessor {
    audio_cache: AudioCache,
    last_state: SpeechState,
}

impl VadProcessor {
    pub closed spec fn cached(&self) -> Seq<Seq<i16>> {
        self.audio_cache.frames()
    }

    pub closed spec fn last(&self) -> SpeechState {
        self.last_state
    }

    pub closed spec fn pre_roll_capacity(&self) -> nat {
        self.audio_cache.capacity()
    }

    /// Frames are held only while silent.
    pub open spec fn wf(&self) -> bool {
        &&& self.cached().len() <= self.pre_roll_capacity()
        &&& self.last() != SpeechState::Silent ==> self.cached().len() == 0
    }

    /// A silent stage with an empty pre-roll buffer of `PRE_ROLL_FRAMES`.
    pub fn new() -> (r: Self)
        ensures
            r.wf(),
            r.last() == SpeechState::Silent,
            r.cached().len() == 0,
            r.pre_roll_capacity() == PRE_ROLL_FRAMES,
    {
        VadProcessor { audio_cache: AudioCache::new(PRE_ROLL_FRAMES), last_state: SpeechState::Silent }
    }

    /// Number of frames in the pre-roll buffer.
    pub fn cached_len(&self) -> (r: usize)
        ensures
            r == self.cached().len(),
    {
        self.audio_cache.len()
    }

    /// Takes one frame with the model's verdict on it. A silent frame goes
    /// into the pre-roll buffer and nothing goes downstream. Any other
    /// frame goes downstream after the held frames, all of them in order;
    /// a frame that ends speech is followed by the end of the utterance.
    /// The buffer is empty afterwards.
    pub fn handle_speech_state(&mut self, speech_state: SpeechState, frame: Vec<i16>) -> (r: Vec<AudioOut>)
        requires
            old(self).wf(),
        ensures
            final(self).wf(),
            final(self).last() == speech_state,
            final(self).pre_roll_capacity() == old(self).pre_roll_capacity(),
            speech_state == SpeechState::Silent ==> {
                &&& r@.len() == 0
                &&& final(self).cached() == {
                    let pushed = old(self).cached().push(frame@);
                    if old(self).cached().len() < old(self).pre_roll_capacity() {
                        pushed
                    } else {
                        pushed.drop_first()
                    }
                }
            },
            speech_state != SpeechState::Silent ==> {
                &&& final(self).cached().len() == 0
                &&& outs_view(r@) == old(self).cached().map_values(
                    |f: Seq<i16>| AudioOutView::Frame { samples: f },
                ).push(AudioOutView::Frame { samples: frame@ }) + if speech_state
                    == SpeechState::StopSpeaking {
                    seq![AudioOutView::EndOfUtterance]
                } else {
                    Seq::<AudioOutView>::empty()
                }
            },
    {
        let mut out: Vec<AudioOut> = Vec::new();
        if speech_state == SpeechState::Silent {
            let ghost before = self.audio_cache.frames();
            self.audio_cache.push(frame.as_slice());
            assert(self.audio_cache.capacity() == 0 ==> before.push(frame@).drop_first() =~= before);
            self.last_state = speech_state;
            return out;
        }
        let held = self.audio_cache.take_all();
        let ghost hv = frames_view(held@);
        let mut rest = held;
        // frames leave in the order they were held
        let mut taken: Vec<Vec<i16>> = Vec::new();
        while rest.len() > 0
            invariant
                frames_view(taken@) + frames_view(rest@) == hv,
                outs_view(out@) == frames_view(taken@).map_values(
                    |f: Seq<i16>| AudioOutView::Frame { samples: f },
                ),
            decreases rest@.len(),
        {
            let ghost t0 = taken@;
            let ghost r0 = rest@;
            let ghost o0 = out@;
            let f = rest.remove(0);
            let copy = vstd::slice::slice_to_vec(f.as_slice());
            taken.push(f);
            out.push(AudioOut::Frame { samples: copy });
            assert(frames_view(taken@) =~= frames_view(t0).push(r0[0]@));
            assert(frames_view(rest@) =~= frames_view(r0).drop_first());
            assert(frames_view(taken@) + frames_view(rest@) =~= frames_view(t0) + frames_view(r0));
            assert(outs_view(out@) =~= outs_view(o0).push(AudioOutView::Frame { samples: r0[0]@ }));
            assert(outs_view(out@) =~= frames_view(taken@).map_values(
                |f: Seq<i16>| AudioOutView::Frame { samples: f },
            ));
        }
        assert(frames_view(taken@) =~= hv);
        let ghost flushed = outs_view(out@);
        out.push(AudioOut::Frame { samples: frame });
        if speech_state == SpeechState::StopSpeaking {
            out.push(AudioOut::EndOfUtterance);
            assert(outs_view(out@) =~= flushed.push(AudioOutView::Frame { samples: frame@ }) + seq![
                AudioOutView::EndOfUtterance,
            ]);
        } else {
            assert(outs_view(out@) =~= flushed.push(AudioOutView::Frame { samples: frame@ })
                + Seq::<AudioOutView>::empty());
        }
        self.last_state = speech_state;
        out
    }
}

/// The sample that two little-endian bytes encode.
pub open spec fn le_sample(lo: u8, hi: u8) -> i16 {
    let u = hi as int * 256 + lo as int;
    if u < 32768 {
        u as i16
    } else {
        (u - 65536) as i16
    }
}

/// 16-bit little-endian PCM to samples; a trailing odd byte is ignored.
pub fn pcm_from_le_bytes(data: &[u8]) -> (r: Vec<i16>)
    ensures
        r@.len() == data@.len() / 2,
        forall|i: int| 0 <= i < r@.len() ==> #[trigger] r@[i] == le_sample(data@[2 * i], data@[2 * i + 1]),
{
    let mut r: Vec<i16> = Vec::new();
    let len = data.len();
    let n = len / 2;
    let mut i: usize = 0;
    while i < n
        invariant
            len == data@.len(),
            n == data@.len() / 2,
            0 <= i <= n,
            r@.len() == i,
            forall|k: int| 0 <= k < i ==> #[trigger] r@[k] == le_sample(data@[2 * k], data@[2 * k + 1]),
        decreases n - i,
    {
        assert(2 * i + 1 < data@.len());
        let lo = data[2 * i];
        let hi = data[2 * i + 1];
        let u: u32 = hi as u32 * 256 + lo as u32;
        let s: i16 = if u < 32768 {
            u as i16
        } else {
            (u as i32 - 65536) as i16
        };
        r.push(s);
        i = i + 1;
    }
    r
}

/// The low byte of a sample's 16-bit two's complement form.
pub open spec fn low_byte(x: i16) -> u8 {
    (if x >= 0 { x as int } else { x as int + 65536 } % 256) as u8
}

/// The high byte of a sample's 16-bit two's complement form.
pub open spec fn high_byte(x: i16) -> u8 {
    (if x >= 0 { x as int } else { x as int + 65536 } / 256) as u8
}

/// Samples to 16-bit little-endian PCM.
pub fn pcm_to_le_bytes(samples: &[i16]) -> (r: Vec<u8>)
    ensures
        r@.len() == 2 * samples@.len(),
        forall|i: int|
            0 <= i < samples@.len() ==> r@[2 * i] == low_byte(#[trigger] samples@[i]) && r@[2 * i + 1]
                == high_byte(samples@[i]),
{
    let mut r: Vec<u8> = Vec::new();
    let mut i: usize = 0;
    while i < samples.len()
        invariant
            0 <= i <= samples@.len(),
            r@.len() == 2 * i,
            forall|k: int|
                0 <= k < i ==> r@[2 * k] == low_byte(#[trigger] samples@[k]) && r@[2 * k + 1]
                    == high_byte(samples@[k]),
        decreases samples@.len() - i,
    {
        let x = samples[i];
        let u: u32 = if x >= 0 {
            x as u32
        } else {
            (x as i32 + 65536) as u32
        };
        r.push((u % 256) as u8);
        r.push((u / 256) as u8);
        i = i + 1;
    }
    r
}

/// Writing samples as little-endian PCM and reading them back gives the
/// same samples.
pub proof fn pcm_round_trip(x: i16)
    ensures
        le_sample(low_byte(x), high_byte(x)) == x,
{
}

/// Cuts whole frames of `samples_per_frame` samples off the front of
/// `audio_buffer`, in order; fewer samples than a frame stay behind.
pub fn process_buffer(audio_buffer: &mut Vec<i16>, samples_per_frame: usize) -> (r: Vec<Vec<i16>>)
    requires
        samples_per_frame > 0,
    ensures
        r@.len() == old(audio_buffer)@.len() as int / samples_per_frame as int,
        forall|i: int|
            0 <= i < r@.len() ==> #[trigger] r@[i]@ == old(audio_buffer)@.subrange(
                i * samples_per_frame,
                (i + 1) * samples_per_frame,
            ),
        final(audio_buffer)@ == old(audio_buffer)@.subrange(
            r@.len() * samples_per_frame,
            old(audio_buffer)@.len() as int,
        ),
{
    let ghost all = audio_buffer@;
    let spf = samples_per_frame;
    let mut frames: Vec<Vec<i16>> = Vec::new();
    let mut off: usize = 0;
    assert(0 == frames@.len() * spf) by (nonlinear_arith)
        requires frames@.len() == 0;
    while audio_buffer.len() - off >= spf
        invariant
            spf > 0,
            spf == samples_per_frame,
            audio_buffer@ == all,
            off <= all.len(),
            off == frames@.len() * spf,
            frames@.len() <= all.len() as int / spf as int,
            forall|i: int|
                0 <= i < frames@.len() ==> #[trigger] frames@[i]@ == all.subrange(i * spf, (i + 1) * spf),
        decreases all.len() - off,
    {
        let ghost n = frames@.len();
        let frame = vstd::slice::slice_to_vec(vstd::slice::slice_subrange(audio_buffer.as_slice(), off, off + spf));
        frames.push(frame);
        proof {
            assert((n + 1) * spf == n * spf + spf) by (nonlinear_arith);
            assert((n + 1) * spf <= all.len());
            assert(n + 1 <= all.len() as int / spf as int) by (nonlinear_arith)
                requires (n + 1) * spf <= all.len(), spf > 0;
        }
        off = off + spf;
    }
    proof {
        let n = frames@.len() as int;
        assert(all.len() - off < spf);
        assert(n == all.len() as int / spf as int) by (nonlinear_arith)
            requires off == n * spf, all.len() - off < spf, off <= all.len(), spf > 0, n <= all.len() as int / spf as int;
    }
    let mut rest: Vec<i16> = Vec::new();
    let mut k: usize = off;
    while k < audio_buffer.len()
        invariant
            audio_buffer@ == all,
            off <= k <= all.len(),
            rest@ == all.subrange(off as int, k as int),
        decreases all.len() - k,
    {
        rest.push(audio_buffer[k]);
        assert(all.subrange(off as int, k + 1) =~= all.subrange(off as int, k as int).push(all[k as int]));
        k = k + 1;
    }
    *audio_buffer = rest;
    frames
}

} // verus!
