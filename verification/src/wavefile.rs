//! RIFF/WAVE sounds. The container is decoded by the riff_wave crate; this
//! module drives it until the stream is exhausted and collects the samples.

use crate::error::{ReadError, WaveError};
use crate::utils::LengthLimitedReader;
use riff_wave::{ReadErrorKind, WaveReader};
use std::io::Cursor;
use vstd::prelude::*;
use vstd::slice::slice_to_vec;

verus! {

/// A RIFF/WAVE decoder of the riff_wave crate over the bytes of one stream
/// in memory, positioned in the sample data. Verus is told nothing of what
/// is inside; the two functions below say what it holds and what it gives.
#[verifier::external_body]
pub struct SampleStream {
    inner: WaveReader<Cursor<Vec<u8>>>,
}

/// What the decoder makes of a stream: the bytes of the sample data, which
/// are all bytes that follow the header of the first "data" chunk behind
/// the format chunk, or the reason for which it turns the stream down.
pub uninterp spec fn wave_decode(bytes: Seq<u8>) -> Result<Seq<u8>, WaveError>;

/// The bytes of sample data that a decoder has not handed out yet.
pub uninterp spec fn pending_samples(stream: SampleStream) -> Seq<u8>;

/// What one pull of a sample from the decoder gave.
#[derive(Debug, Clone, Copy, PartialEq, Eq, Structural)]
pub enum SampleRead {
    /// The next sample.
    Sample(u8),
    /// The stream is exhausted.
    End,
    /// The decoder failed in the middle of the stream.
    Failed,
}

/// `WaveReader::new` of riff_wave, on a cursor over `bytes`: the decoder
/// behind the header of the first "data" chunk, with all bytes after that
/// header pending, or the error with which the header was turned down.
#[verifier::external_body]
fn open_stream(bytes: Vec<u8>) -> (r: Result<SampleStream, WaveError>)
    ensures
        match r {
            Ok(stream) => wave_decode(bytes@) == Ok::<Seq<u8>, WaveError>(pending_samples(stream)),
            Err(e) => wave_decode(bytes@) == Err::<Seq<u8>, WaveError>(e),
        },
{
    match WaveReader::new(Cursor::new(bytes)) {
        Ok(inner) => Ok(SampleStream { inner }),
        Err(riff_wave::ReadError::Io(_)) => Err(WaveError::Io),
        Err(riff_wave::ReadError::Format(kind)) => Err(match kind {
            ReadErrorKind::NotARiffFile => WaveError::NotARiffFile,
            ReadErrorKind::NotAWaveFile => WaveError::NotAWaveFile,
            ReadErrorKind::NotAnUncompressedPcmWaveFile(tag) => WaveError::NotAnUncompressedPcmWaveFile(tag),
            ReadErrorKind::FmtChunkTooShort => WaveError::FmtChunkTooShort,
            ReadErrorKind::NumChannelsIsZero => WaveError::NumChannelsIsZero,
            ReadErrorKind::SampleRateIsZero => WaveError::SampleRateIsZero,
            ReadErrorKind::UnsupportedBitsPerSample(bits) => WaveError::UnsupportedBitsPerSample(bits),
            ReadErrorKind::InvalidBitsPerSample(bits, valid) => WaveError::InvalidBitsPerSample(bits, valid),
        }),
    }
}

/// `WaveReader::read_sample_u8` of riff_wave: the first pending byte, which
/// is then pending no more, and the end of the stream where none is
/// pending. An in-memory cursor fails for no other reason than its end.
#[verifier::external_body]
fn next_sample(stream: &mut SampleStream) -> (r: SampleRead)
    ensures
        pending_samples(*old(stream)).len() > 0 ==> r == SampleRead::Sample(
            pending_samples(*old(stream))[0],
        ) && pending_samples(*final(stream)) == pending_samples(*old(stream)).skip(1),
        pending_samples(*old(stream)).len() == 0 ==> r == SampleRead::End && pending_samples(
            *final(stream),
        ) == pending_samples(*old(stream)),
{
    match stream.inner.read_sample_u8() {
        Ok(sample) => SampleRead::Sample(sample),
        Err(e) if e.kind() == std::io::ErrorKind::UnexpectedEof => SampleRead::End,
        Err(_) => SampleRead::Failed,
    }
}

/// RIFF-WAVE file data
pub struct Sound {
    /// unsigned 8 bit samples of a wave file.
    pub samples: Vec<u8>,
}

impl Sound {
    /// A sound without samples.
    pub fn new() -> (sound: Sound)
        ensures
            sound.samples@ == Seq::<u8>::empty(),
    {
        Sound { samples: Vec::new() }
    }

    /// Takes in what one pull from the decoder gave. A sample is added and
    /// more are wanted (`Ok(true)`); at the end of the stream the sound is
    /// complete (`Ok(false)`); a failure of the decoder is an error, also
    /// after samples have been read, and leaves the sound as it was.
    pub fn take(&mut self, read: SampleRead) -> (r: Result<bool, ReadError>)
        ensures
            match read {
                SampleRead::Sample(sample) => {
                    &&& r matches Ok(true)
                    &&& final(self).samples@ == old(self).samples@.push(sample)
                },
                SampleRead::End => {
                    &&& r matches Ok(false)
                    &&& final(self).samples@ == old(self).samples@
                },
                SampleRead::Failed => {
                    &&& r matches Err(ReadError::Wave(WaveError::Io))
                    &&& final(self).samples@ == old(self).samples@
                },
            },
    {
        match read {
            SampleRead::Sample(sample) => {
                self.samples.push(sample);
                Ok(true)
            },
            SampleRead::End => Ok(false),
            SampleRead::Failed => Err(ReadError::Wave(WaveError::Io)),
        }
    }

    /// Reads the samples of a 8 bit riff-wave file: everything that
    /// `reader` can still read is one stream, and the reader is left at its
    /// end.
    pub fn read(reader: &mut LengthLimitedReader) -> (r: Result<Sound, ReadError>)
        ensures
            old(reader).moved_to(final(reader), old(reader).cursor() + old(reader).rest().len()),
            match wave_decode(old(reader).rest()) {
                Ok(samples) => r matches Ok(sound) && sound.samples@ == samples,
                Err(e) => r matches Err(ReadError::Wave(w)) && w == e,
            },
    {
        let count: usize = reader.remaining();
        let bytes = reader.read(count);
        assert(bytes@ == old(reader).rest());
        let mut wav_reader: SampleStream = match open_stream(slice_to_vec(bytes)) {
            Ok(stream) => stream,
            Err(e) => {
                return Err(ReadError::Wave(e));
            },
        };
        let ghost all = pending_samples(wav_reader);
        let mut sound = Sound::new();
        loop
            invariant
                all == sound.samples@ + pending_samples(wav_reader),
            ensures
                sound.samples@ == all,
            decreases pending_samples(wav_reader).len(),
        {
            match sound.take(next_sample(&mut wav_reader)) {
                Ok(true) => {},
                Ok(false) => {
                    break ;
                },
                Err(e) => {
                    return Err(e);
                },
            }
        }
        Ok(sound)
    }
}

} // verus!
