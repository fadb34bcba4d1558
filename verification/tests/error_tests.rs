use ktx2_rw::error::{
    KTX_DECOMPRESS_CHECKSUM_ERROR, KTX_DECOMPRESS_LENGTH_ERROR, KTX_FILE_DATA_ERROR,
    KTX_FILE_ISPIPE, KTX_FILE_OPEN_FAILED, KTX_FILE_OVERFLOW, KTX_FILE_READ_ERROR,
    KTX_FILE_SEEK_ERROR, KTX_FILE_UNEXPECTED_EOF, KTX_FILE_WRITE_ERROR, KTX_GL_ERROR,
    KTX_INVALID_OPERATION, KTX_INVALID_VALUE, KTX_LIBRARY_NOT_LINKED, KTX_NOT_FOUND,
    KTX_OUT_OF_MEMORY, KTX_TRANSCODE_FAILED, KTX_UNKNOWN_FILE_FORMAT, KTX_UNSUPPORTED_FEATURE,
    KTX_UNSUPPORTED_TEXTURE_TYPE,
};
use ktx2_rw::Error;

#[test]
fn test_error_conversion() {
    let error: Error = KTX_FILE_DATA_ERROR.into();
    assert_eq!(error, Error::FileDataError);

    let error: Error = KTX_OUT_OF_MEMORY.into();
    assert_eq!(error, Error::OutOfMemory);
}

#[test]
fn test_all_error_conversions() {
    // Test all error code conversions
    let test_cases = [
        (KTX_FILE_DATA_ERROR, Error::FileDataError),
        (KTX_FILE_ISPIPE, Error::FilePipe),
        (KTX_FILE_OPEN_FAILED, Error::FileOpenFailed),
        (KTX_FILE_OVERFLOW, Error::FileOverflow),
        (KTX_FILE_READ_ERROR, Error::FileReadError),
        (KTX_FILE_SEEK_ERROR, Error::FileSeekError),
        (KTX_FILE_UNEXPECTED_EOF, Error::FileUnexpectedEof),
        (KTX_FILE_WRITE_ERROR, Error::FileWriteError),
        (KTX_GL_ERROR, Error::GlError),
        (KTX_INVALID_OPERATION, Error::InvalidOperation),
        (KTX_INVALID_VALUE, Error::InvalidValue),
        (KTX_NOT_FOUND, Error::NotFound),
        (KTX_OUT_OF_MEMORY, Error::OutOfMemory),
        (KTX_TRANSCODE_FAILED, Error::TranscodeFailed),
        (KTX_UNKNOWN_FILE_FORMAT, Error::UnknownFileFormat),
        (KTX_UNSUPPORTED_TEXTURE_TYPE, Error::UnsupportedTextureType),
        (KTX_UNSUPPORTED_FEATURE, Error::UnsupportedFeature),
        (KTX_LIBRARY_NOT_LINKED, Error::LibraryNotLinked),
        (KTX_DECOMPRESS_LENGTH_ERROR, Error::DecompressLengthError),
        (KTX_DECOMPRESS_CHECKSUM_ERROR, Error::DecompressChecksumError),
    ];

    for (code, expected_error) in test_cases {
        let error: Error = code.into();
        assert_eq!(error, expected_error);
    }
}

#[test]
fn test_error_display() {
    let error = Error::FileDataError;
    assert!(error.description().contains("inconsistent with the KTX spec"));

    let error = Error::OutOfMemory;
    assert!(error.description().contains("Not enough memory"));

    let error = Error::Other(12345);
    assert!(error.description().contains("12345"));
}

#[test]
fn test_error_debug() {
    let error = Error::InvalidValue;
    let debug_str = format!("{error:?}");
    assert_eq!(debug_str, "InvalidValue");
}

#[test]
fn test_error_unknown_code_preserved() {
    let error: Error = 999u32.into();
    assert_eq!(error, Error::Other(999));
    let again: Error = 999u32.into();
    assert_eq!(error, again);
}

#[test]
fn test_error_description_exact() {
    assert_eq!(
        Error::InvalidValue.description(),
        "A parameter value was not valid"
    );
    assert_eq!(Error::Other(0).description(), "Unknown error code: 0");
    assert_eq!(Error::Other(40).description(), "Unknown error code: 40");
}
