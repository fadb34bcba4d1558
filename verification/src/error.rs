//! Error taxonomy for texture-container operations.
//!
//! The native status-code space is a fixed enumeration with one distinguished
//! success value (`KTX_SUCCESS`). Every non-success status translates to
//! exactly one member of [`Error`]; codes outside the known set are preserved
//! losslessly in [`Error::Other`].

use vstd::prelude::*;

verus! {

/// Status code reported on success. It is not an error and has no
/// counterpart in [`Error`]; translating it is a caller's contract
/// violation, and the translation maps it to the catch-all variant.
pub const KTX_SUCCESS: u32 = 0;

/// The data in the file is inconsistent with the KTX specification.
pub const KTX_FILE_DATA_ERROR: u32 = 1;

/// The file is a pipe or named pipe.
pub const KTX_FILE_ISPIPE: u32 = 2;

/// The target file could not be opened.
pub const KTX_FILE_OPEN_FAILED: u32 = 3;

/// The operation would exceed the maximum file size.
pub const KTX_FILE_OVERFLOW: u32 = 4;

/// An error occurred while reading from the file.
pub const KTX_FILE_READ_ERROR: u32 = 5;

/// An error occurred while seeking in the file.
pub const KTX_FILE_SEEK_ERROR: u32 = 6;

/// The file does not have enough data to satisfy the request.
pub const KTX_FILE_UNEXPECTED_EOF: u32 = 7;

/// An error occurred while writing to the file.
pub const KTX_FILE_WRITE_ERROR: u32 = 8;

/// GL operations resulted in an error.
pub const KTX_GL_ERROR: u32 = 9;

/// The operation is not allowed in the current state.
pub const KTX_INVALID_OPERATION: u32 = 10;

/// A parameter value was not valid.
pub const KTX_INVALID_VALUE: u32 = 11;

/// The requested metadata key or required function was not found.
pub const KTX_NOT_FOUND: u32 = 12;

/// Not enough memory to complete the operation.
pub const KTX_OUT_OF_MEMORY: u32 = 13;

/// Transcoding of a block-compressed texture failed.
pub const KTX_TRANSCODE_FAILED: u32 = 14;

/// The file is not a KTX file.
pub const KTX_UNKNOWN_FILE_FORMAT: u32 = 15;

/// The file specifies an unsupported texture type.
pub const KTX_UNSUPPORTED_TEXTURE_TYPE: u32 = 16;

/// The feature is not included in the library or not yet implemented.
pub const KTX_UNSUPPORTED_FEATURE: u32 = 17;

/// A library dependency is not linked into the application.
pub const KTX_LIBRARY_NOT_LINKED: u32 = 18;

/// The decompressed byte count does not match the expected size.
pub const KTX_DECOMPRESS_LENGTH_ERROR: u32 = 19;

/// Checksum mismatch when decompressing.
pub const KTX_DECOMPRESS_CHECKSUM_ERROR: u32 = 20;

/// Comprehensive error taxonomy for texture-container operations.
///
/// Equality is value-based: two `Other` values are equal exactly when they
/// carry the same native status code.
#[derive(Debug, Clone, PartialEq, Eq, Structural)]
pub enum Error {
    FileDataError,
    FilePipe,
    FileOpenFailed,
    FileOverflow,
    FileReadError,
    FileSeekError,
    FileUnexpectedEof,
    FileWriteError,
    GlError,
    InvalidOperation,
    InvalidValue,
    NotFound,
    OutOfMemory,
    TranscodeFailed,
    UnknownFileFormat,
    UnsupportedTextureType,
    UnsupportedFeature,
    LibraryNotLinked,
    DecompressLengthError,
    DecompressChecksumError,
    Other(u32),
}

/// The documented translation of a native status code into the taxonomy.
///
/// Total over all codes; the success value never reaches the translation in
/// this library (no operation constructs an error from it), and like every
/// code outside the known error set it falls into the catch-all variant.
pub open spec fn translate_spec(code: u32) -> Error {
    if code == KTX_FILE_DATA_ERROR {
        Error::FileDataError
    } else if code == KTX_FILE_ISPIPE {
        Error::FilePipe
    } else if code == KTX_FILE_OPEN_FAILED {
        Error::FileOpenFailed
    } else if code == KTX_FILE_OVERFLOW {
        Error::FileOverflow
    } else if code == KTX_FILE_READ_ERROR {
        Error::FileReadError
    } else if code == KTX_FILE_SEEK_ERROR {
        Error::FileSeekError
    } else if code == KTX_FILE_UNEXPECTED_EOF {
        Error::FileUnexpectedEof
    } else if code == KTX_FILE_WRITE_ERROR {
        Error::FileWriteError
    } else if code == KTX_GL_ERROR {
        Error::GlError
    } else if code == KTX_INVALID_OPERATION {
        Error::InvalidOperation
    } else if code == KTX_INVALID_VALUE {
        Error::InvalidValue
    } else if code == KTX_NOT_FOUND {
        Error::NotFound
    } else if code == KTX_OUT_OF_MEMORY {
        Error::OutOfMemory
    } else if code == KTX_TRANSCODE_FAILED {
        Error::TranscodeFailed
    } else if code == KTX_UNKNOWN_FILE_FORMAT {
        Error::UnknownFileFormat
    } else if code == KTX_UNSUPPORTED_TEXTURE_TYPE {
        Error::UnsupportedTextureType
    } else if code == KTX_UNSUPPORTED_FEATURE {
        Error::UnsupportedFeature
    } else if code == KTX_LIBRARY_NOT_LINKED {
        Error::LibraryNotLinked
    } else if code == KTX_DECOMPRESS_LENGTH_ERROR {
        Error::DecompressLengthError
    } else if code == KTX_DECOMPRESS_CHECKSUM_ERROR {
        Error::DecompressChecksumError
    } else {
        Error::Other(code)
    }
}

impl From<u32> for Error {
    /// Translates a native status code into the taxonomy.
    fn from(code: u32) -> (r: Error) {
        if code == KTX_FILE_DATA_ERROR {
            Error::FileDataError
        } else if code == KTX_FILE_ISPIPE {
            Error::FilePipe
        } else if code == KTX_FILE_OPEN_FAILED {
            Error::FileOpenFailed
        } else if code == KTX_FILE_OVERFLOW {
            Error::FileOverflow
        } else if code == KTX_FILE_READ_ERROR {
            Error::FileReadError
        } else if code == KTX_FILE_SEEK_ERROR {
            Error::FileSeekError
        } else if code == KTX_FILE_UNEXPECTED_EOF {
            Error::FileUnexpectedEof
        } else if code == KTX_FILE_WRITE_ERROR {
            Error::FileWriteError
        } else if code == KTX_GL_ERROR {
            Error::GlError
        } else if code == KTX_INVALID_OPERATION {
            Error::InvalidOperation
        } else if code == KTX_INVALID_VALUE {
            Error::InvalidValue
        } else if code == KTX_NOT_FOUND {
            Error::NotFound
        } else if code == KTX_OUT_OF_MEMORY {
            Error::OutOfMemory
        } else if code == KTX_TRANSCODE_FAILED {
            Error::TranscodeFailed
        } else if code == KTX_UNKNOWN_FILE_FORMAT {
            Error::UnknownFileFormat
        } else if code == KTX_UNSUPPORTED_TEXTURE_TYPE {
            Error::UnsupportedTextureType
        } else if code == KTX_UNSUPPORTED_FEATURE {
            Error::UnsupportedFeature
        } else if code == KTX_LIBRARY_NOT_LINKED {
            Error::LibraryNotLinked
        } else if code == KTX_DECOMPRESS_LENGTH_ERROR {
            Error::DecompressLengthError
        } else if code == KTX_DECOMPRESS_CHECKSUM_ERROR {
            Error::DecompressChecksumError
        } else {
            Error::Other(code)
        }
    }
}

impl vstd::std_specs::convert::FromSpecImpl<u32> for Error {
    open spec fn obeys_from_spec() -> bool {
        true
    }

    open spec fn from_spec(code: u32) -> Error {
        translate_spec(code)
    }
}

/// The character of one decimal digit.
pub open spec fn digit_char(d: int) -> char {
    if d == 0 {
        '0'
    } else if d == 1 {
        '1'
    } else if d == 2 {
        '2'
    } else if d == 3 {
        '3'
    } else if d == 4 {
        '4'
    } else if d == 5 {
        '5'
    } else if d == 6 {
        '6'
    } else if d == 7 {
        '7'
    } else if d == 8 {
        '8'
    } else {
        '9'
    }
}

/// The decimal digits of a positive number, most significant first;
/// empty for zero.
pub open spec fn dec_digits_rec(n: nat) -> Seq<char>
    decreases n,
{
    if n == 0 {
        Seq::empty()
    } else {
        dec_digits_rec(n / 10).push(digit_char((n % 10) as int))
    }
}

/// The decimal rendering of a number.
pub open spec fn dec_digits(n: nat) -> Seq<char> {
    if n == 0 {
        seq!['0']
    } else {
        dec_digits_rec(n)
    }
}

/// Renders a number in decimal.
fn u32_digits(n: u32) -> (r: String)
    ensures
        r@ == dec_digits(n as nat),
{
    if n == 0 {
        proof {
            reveal_strlit("0");
        }
        return String::from_str("0");
    }
    let mut acc = String::new();
    let mut m = n;
    while m > 0
        invariant
            dec_digits_rec(n as nat) == dec_digits_rec(m as nat) + acc@,
        decreases m,
    {
        let d = m % 10;
        let ds: &str = if d == 0 {
            "0"
        } else if d == 1 {
            "1"
        } else if d == 2 {
            "2"
        } else if d == 3 {
            "3"
        } else if d == 4 {
            "4"
        } else if d == 5 {
            "5"
        } else if d == 6 {
            "6"
        } else if d == 7 {
            "7"
        } else if d == 8 {
            "8"
        } else {
            "9"
        };
        proof {
            reveal_strlit("0");
            reveal_strlit("1");
            reveal_strlit("2");
            reveal_strlit("3");
            reveal_strlit("4");
            reveal_strlit("5");
            reveal_strlit("6");
            reveal_strlit("7");
            reveal_strlit("8");
            reveal_strlit("9");
            assert(ds@ =~= seq![digit_char(d as int)]);
        }
        let mut ns = String::from_str(ds);
        ns.append(acc.as_str());
        proof {
            assert(dec_digits_rec(m as nat) == dec_digits_rec((m / 10) as nat).push(
                digit_char((m % 10) as int),
            ));
            assert(dec_digits_rec((m / 10) as nat) + ns@ =~= dec_digits_rec(m as nat) + acc@);
            assert((m / 10) < m) by (nonlinear_arith)
                requires
                    m >= 1,
            ;
        }
        acc = ns;
        m = m / 10;
    }
    proof {
        assert(dec_digits_rec(0nat) + acc@ =~= acc@);
    }
    acc
}

/// The human-readable description of each taxonomy member; the catch-all
/// names its code in decimal.
pub open spec fn description_spec(e: Error) -> Seq<char> {
    match e {
        Error::FileDataError => "The data in the file is inconsistent with the KTX spec"@,
        Error::FilePipe => "The file is a pipe or named pipe"@,
        Error::FileOpenFailed => "The target file could not be opened"@,
        Error::FileOverflow => "The operation would exceed the max file size"@,
        Error::FileReadError => "An error occurred while reading from the file"@,
        Error::FileSeekError => "An error occurred while seeking in the file"@,
        Error::FileUnexpectedEof => "File does not have enough data to satisfy request"@,
        Error::FileWriteError => "An error occurred while writing to the file"@,
        Error::GlError => "GL operations resulted in an error"@,
        Error::InvalidOperation => "The operation is not allowed in the current state"@,
        Error::InvalidValue => "A parameter value was not valid"@,
        Error::NotFound => "Requested metadata key or required function was not found"@,
        Error::OutOfMemory => "Not enough memory to complete the operation"@,
        Error::TranscodeFailed => "Transcoding of block compressed texture failed"@,
        Error::UnknownFileFormat => "The file is not a KTX file"@,
        Error::UnsupportedTextureType => "The KTX file specifies an unsupported texture type"@,
        Error::UnsupportedFeature => "Feature not included in library or not yet implemented"@,
        Error::LibraryNotLinked => "Library dependency not linked into application"@,
        Error::DecompressLengthError => "Decompressed byte count does not match expected size"@,
        Error::DecompressChecksumError => "Checksum mismatch when decompressing"@,
        Error::Other(code) => "Unknown error code: "@ + dec_digits(code as nat),
    }
}

impl Error {
    /// The fixed human-readable description of this error, for display.
    pub fn description(&self) -> (r: String)
        ensures
            r@ == description_spec(*self),
    {
        match self {
            Error::FileDataError => String::from_str(
                "The data in the file is inconsistent with the KTX spec",
            ),
            Error::FilePipe => String::from_str("The file is a pipe or named pipe"),
            Error::FileOpenFailed => String::from_str("The target file could not be opened"),
            Error::FileOverflow => String::from_str(
                "The operation would exceed the max file size",
            ),
            Error::FileReadError => String::from_str(
                "An error occurred while reading from the file",
            ),
            Error::FileSeekError => String::from_str(
                "An error occurred while seeking in the file",
            ),
            Error::FileUnexpectedEof => String::from_str(
                "File does not have enough data to satisfy request",
            ),
            Error::FileWriteError => String::from_str(
                "An error occurred while writing to the file",
            ),
            Error::GlError => String::from_str("GL operations resulted in an error"),
            Error::InvalidOperation => String::from_str(
                "The operation is not allowed in the current state",
            ),
            Error::InvalidValue => String::from_str("A parameter value was not valid"),
            Error::NotFound => String::from_str(
                "Requested metadata key or required function was not found",
            ),
            Error::OutOfMemory => String::from_str(
                "Not enough memory to complete the operation",
            ),
            Error::TranscodeFailed => String::from_str(
                "Transcoding of block compressed texture failed",
            ),
            Error::UnknownFileFormat => String::from_str("The file is not a KTX file"),
            Error::UnsupportedTextureType => String::from_str(
                "The KTX file specifies an unsupported texture type",
            ),
            Error::UnsupportedFeature => String::from_str(
                "Feature not included in library or not yet implemented",
            ),
            Error::LibraryNotLinked => String::from_str(
                "Library dependency not linked into application",
            ),
            Error::DecompressLengthError => String::from_str(
                "Decompressed byte count does not match expected size",
            ),
            Error::DecompressChecksumError => String::from_str(
                "Checksum mismatch when decompressing",
            ),
            Error::Other(code) => {
                let mut s = String::from_str("Unknown error code: ");
                let digits = u32_digits(*code);
                s.append(digits.as_str());
                s
            },
        }
    }
}

/// Status-code translation is deterministic: equal codes translate to
/// equal taxonomy members, so applying the translation twice to the same
/// code yields equal results.
pub proof fn lemma_translation_deterministic(a: u32, b: u32)
    requires
        a == b,
    ensures
        translate_spec(a) == translate_spec(b),
{
}

/// Every code of the known error enumeration translates to a member other
/// than the catch-all, and every code outside it (the success value
/// included) is preserved losslessly in the catch-all.
pub proof fn lemma_translation_total(code: u32)
    ensures
        1 <= code <= 20 ==> !(translate_spec(code) is Other),
        (code == KTX_SUCCESS || code > 20) ==> translate_spec(code) == Error::Other(code),
{
}

} // verus!
