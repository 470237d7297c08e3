//! The error taxonomy shared by every reader in this crate.

use vstd::prelude::*;
use vstd::std_specs::convert::FromSpecImpl;

verus! {

/// `std::io::Error` of the standard library. It is carried through as it
/// is: nothing is known here of what one holds.
#[verifier::external_type_specification]
#[verifier::external_body]
pub struct ExIoError(std::io::Error);

/// Why the RIFF/WAVE decoder turned a stream down.
#[derive(Debug, Clone, Copy, PartialEq, Eq, Structural)]
pub enum WaveError {
    /// The stream does not start with a "RIFF" tag and chunk size.
    NotARiffFile,
    /// The stream does not continue with "WAVE" after the RIFF chunk header.
    NotAWaveFile,
    /// The format tag is not that of uncompressed PCM; the tag found.
    NotAnUncompressedPcmWaveFile(u16),
    /// The format chunk is shorter than its fixed fields.
    FmtChunkTooShort,
    /// The number of channels is zero.
    NumChannelsIsZero,
    /// The sample rate is zero.
    SampleRateIsZero,
    /// The bits per sample are none of 8, 16, 24 and 32; the number found.
    UnsupportedBitsPerSample(u16),
    /// The valid bits per sample do not fill the container: container size, valid bits.
    InvalidBitsPerSample(u16, u16),
    /// The stream ended, or could not be positioned, inside the header.
    Io,
}

/// Read errors when reading a file / resource.
#[derive(Debug)]
pub enum ReadError {
    /// A failure of the underlying byte source.
    Io(std::io::Error),
    /// A failure reported by the RIFF/WAVE decoder.
    Wave(WaveError),
    /// The input data is not what the format prescribes.
    ParseError,
    /// The file / resource that was asked for does not exist.
    FileNotFound,
}

impl From<std::io::Error> for ReadError {
    fn from(err: std::io::Error) -> (r: ReadError) {
        ReadError::Io(err)
    }
}

impl FromSpecImpl<std::io::Error> for ReadError {
    open spec fn obeys_from_spec() -> bool {
        true
    }

    open spec fn from_spec(err: std::io::Error) -> ReadError {
        ReadError::Io(err)
    }
}

impl From<WaveError> for ReadError {
    fn from(err: WaveError) -> (r: ReadError) {
        ReadError::Wave(err)
    }
}

impl FromSpecImpl<WaveError> for ReadError {
    open spec fn obeys_from_spec() -> bool {
        true
    }

    open spec fn from_spec(err: WaveError) -> ReadError {
        ReadError::Wave(err)
    }
}

/// The text that the standard library prints for an I/O error
/// (`Display` of `std::io::Error`). Nothing is claimed of the text.
#[verifier::external_body]
fn io_error_text(err: &std::io::Error) -> (text: String) {
    format!("{}", err)
}

/// An I/O error of kind `InvalidInput` (`std::io::Error::new`), as a seekable
/// source of the standard library reports a seek to a position it cannot take.
#[verifier::external_body]
pub(crate) fn invalid_seek() -> (err: std::io::Error) {
    std::io::Error::new(std::io::ErrorKind::InvalidInput, "seek target outside the readable range")
}

impl WaveError {
    /// What the decoder objected to, in words.
    pub open spec fn text(self) -> Seq<char> {
        match self {
            WaveError::NotARiffFile => "not a RIFF file"@,
            WaveError::NotAWaveFile => "not a WAVE file"@,
            WaveError::NotAnUncompressedPcmWaveFile(_) => "not an uncompressed wave file"@,
            WaveError::FmtChunkTooShort => "format chunk is too short"@,
            WaveError::NumChannelsIsZero => "number of channels is zero"@,
            WaveError::SampleRateIsZero => "sample rate is zero"@,
            WaveError::UnsupportedBitsPerSample(_) => "unsupported bits per sample"@,
            WaveError::InvalidBitsPerSample(_, _) => {
                "valid bits per sample do not fill the container"@
            },
            WaveError::Io => "stream ended inside the header"@,
        }
    }

    /// What the decoder objected to, in words.
    pub fn message(&self) -> (text: String)
        ensures
            text@ == self.text(),
    {
        match self {
            WaveError::NotARiffFile => "not a RIFF file".to_owned(),
            WaveError::NotAWaveFile => "not a WAVE file".to_owned(),
            WaveError::NotAnUncompressedPcmWaveFile(_) => {
                "not an uncompressed wave file".to_owned()
            },
            WaveError::FmtChunkTooShort => "format chunk is too short".to_owned(),
            WaveError::NumChannelsIsZero => "number of channels is zero".to_owned(),
            WaveError::SampleRateIsZero => "sample rate is zero".to_owned(),
            WaveError::UnsupportedBitsPerSample(_) => "unsupported bits per sample".to_owned(),
            WaveError::InvalidBitsPerSample(_, _) => {
                "valid bits per sample do not fill the container".to_owned()
            },
            WaveError::Io => "stream ended inside the header".to_owned(),
        }
    }
}

impl ReadError {
    /// A line of text for the user. For an I/O error it is the text of the
    /// wrapped error, whatever that is.
    pub fn message(&self) -> (text: String)
        ensures
            *self is ParseError ==> text@ == "Error parsing file"@,
            *self is FileNotFound ==> text@ == "File not found"@,
            self matches ReadError::Wave(err) ==> text@ == err.text(),
    {
        match self {
            ReadError::Io(err) => io_error_text(err),
            ReadError::Wave(err) => err.message(),
            ReadError::ParseError => "Error parsing file".to_owned(),
            ReadError::FileNotFound => "File not found".to_owned(),
        }
    }
}

} // verus!
