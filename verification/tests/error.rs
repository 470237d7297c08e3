use rquake::{ByteCursor, ReadError, SeekFrom, WaveError};

#[test]
fn own_errors_have_fixed_messages() {
    assert_eq!(ReadError::ParseError.message(), "Error parsing file");
    assert_eq!(ReadError::FileNotFound.message(), "File not found");
}

#[test]
fn io_error_speaks_for_itself() {
    let inner = std::io::Error::new(std::io::ErrorKind::Other, "disk on fire");
    let expected = format!("{}", inner);
    let err = ReadError::from(inner);
    assert!(matches!(err, ReadError::Io(_)));
    assert_eq!(err.message(), expected);
    assert_eq!(err.message(), "disk on fire");
}

#[test]
fn rejected_seek_has_a_message() {
    let data = [0u8; 4];
    let mut cursor = ByteCursor::new(&data);
    let err = cursor.seek(SeekFrom::Current(-1)).unwrap_err();
    assert!(!err.message().is_empty());
}

#[test]
fn wave_errors_say_what_was_wrong() {
    assert_eq!(WaveError::NotARiffFile.message(), "not a RIFF file");
    assert_eq!(WaveError::NotAWaveFile.message(), "not a WAVE file");
    assert_eq!(WaveError::NotAnUncompressedPcmWaveFile(3).message(), "not an uncompressed wave file");
    assert_eq!(WaveError::FmtChunkTooShort.message(), "format chunk is too short");
    assert_eq!(WaveError::NumChannelsIsZero.message(), "number of channels is zero");
    assert_eq!(WaveError::SampleRateIsZero.message(), "sample rate is zero");
    assert_eq!(WaveError::UnsupportedBitsPerSample(12).message(), "unsupported bits per sample");
    assert_eq!(
        WaveError::InvalidBitsPerSample(8, 6).message(),
        "valid bits per sample do not fill the container"
    );
    assert_eq!(WaveError::Io.message(), "stream ended inside the header");
}

#[test]
fn wave_error_becomes_a_read_error() {
    let err = ReadError::from(WaveError::NotAWaveFile);
    assert!(matches!(err, ReadError::Wave(WaveError::NotAWaveFile)));
    assert_eq!(err.message(), "not a WAVE file");
}

#[test]
fn errors_can_be_printed_for_debugging() {
    assert_eq!(format!("{:?}", ReadError::ParseError), "ParseError");
    assert_eq!(format!("{:?}", ReadError::Wave(WaveError::Io)), "Wave(Io)");
}
