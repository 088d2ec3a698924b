//! Parameters of the audio decoder and what is done with its output. The
//! Opus codec itself runs in the media glue; it decodes into a buffer of
//! `frame_capacity` samples and reports how many samples per channel it
//! wrote.

use vstd::prelude::*;

verus! {

/// Codecs that the decoder handles.
#[derive(Debug, Clone, Copy, PartialEq, Eq, Structural)]
pub enum CodecType {
    Opus,
}

/// A decoder's settings.
pub struct VoxDecoder {
    codec: CodecType,
    sample_rate: u32,
    channels: u16,
}

impl VoxDecoder {
    pub closed spec fn spec_codec(&self) -> CodecType {
        self.codec
    }

    pub closed spec fn spec_sample_rate(&self) -> u32 {
        self.sample_rate
    }

    pub closed spec fn spec_channels(&self) -> u16 {
        self.channels
    }

    /// A decoder for `decoder_type` at `sample_rate` Hz with `channels`
    /// channels.
    pub fn new(decoder_type: CodecType, sample_rate: u32, channels: u16) -> (r: Self)
        ensures
            r.spec_codec() == decoder_type,
            r.spec_sample_rate() == sample_rate,
            r.spec_channels() == channels,
    {
        VoxDecoder { codec: decoder_type, sample_rate, channels }
    }

    pub fn codec(&self) -> (r: CodecType)
        ensures
            r == self.spec_codec(),
    {
        self.codec
    }

    pub fn sample_rate(&self) -> (r: u32)
        ensures
            r == self.spec_sample_rate(),
    {
        self.sample_rate
    }

    pub fn channels(&self) -> (r: u16)
        ensures
            r == self.spec_channels(),
    {
        self.channels
    }

    /// Samples in 20 ms of audio, all channels together: the size of the
    /// buffer the codec decodes one packet into.
    pub fn frame_capacity(&self) -> (r: u64)
        ensures
            r == (self.spec_sample_rate() / 50) as int * self.spec_channels() as int,
    {
        let per_channel = (self.sample_rate / 50) as u64;
        assert(per_channel * (self.channels as u64) <= 85899345 * 65535) by (nonlinear_arith)
            requires per_channel <= 85899345, self.channels <= 65535;
        per_channel * (self.channels as u64)
    }

    /// Keeps the samples the codec wrote: `decoded` per channel, at most
    /// what `output` holds.
    pub fn finish_frame(&self, output: Vec<i16>, decoded: usize) -> (r: Vec<i16>)
        ensures
            r@ == output@.take(
                if decoded as int * self.spec_channels() as int <= output@.len() {
                    decoded as int * self.spec_channels() as int
                } else {
                    output@.len() as int
                },
            ),
    {
        let mut out = output;
        let ch = self.channels as usize;
        let keep: usize = if ch == 0 || decoded <= out.len() / ch {
            proof {
                if ch > 0 {
                    assert(decoded * ch <= out@.len()) by (nonlinear_arith)
                        requires decoded <= out@.len() as int / ch as int, ch > 0;
                } else {
                    assert(decoded * ch == 0) by (nonlinear_arith)
                        requires ch == 0;
                }
            }
            decoded * ch
        } else {
            proof {
                assert(decoded * ch > out@.len()) by (nonlinear_arith)
                    requires decoded > out@.len() as int / ch as int, ch > 0;
            }
            out.len()
        };
        out.truncate(keep);
        out
    }
}

/// A decoder for `decoder_type`.
pub fn create_decoder(decoder_type: CodecType, sample_rate: u32, channels: u16) -> (r: VoxDecoder)
    ensures
        r.spec_codec() == decoder_type,
        r.spec_sample_rate() == sample_rate,
        r.spec_channels() == channels,
{
    VoxDecoder::new(decoder_type, sample_rate, channels)
}

} // verus!
